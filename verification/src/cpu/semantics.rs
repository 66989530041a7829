//! What each instruction does, as functions from a machine state (the CPU
//! and the memory model, see `crate::memory`) to the next one. The
//! executable operations in `ops` and `fde` are proved to compute exactly
//! these.

use vstd::prelude::*;
use crate::bits::{word, high_byte, low_byte, bit_value, add_signed_u16, shl_in, shr_in};
use crate::cpu::{AccFlag, Alu, CBRot, Cpu};
use crate::cpu::helpers::{spec_rp, spec_rp2, spec_r, spec_cc, spec_af, spec_alu, spec_rot};
use crate::memory::{accessible, written};
use crate::registers::{Condition, FlagsRegister, Register, RegisterPair, Registers};

verus! {

/// The four flags, in register order.
pub open spec fn flags(zero: bool, subtract: bool, half_carry: bool, carry: bool) -> FlagsRegister {
    FlagsRegister { zero, subtract, half_carry, carry }
}

// ---------------------------------------------------------------------------
// Arithmetic and logic on the accumulator.

/// ADD A, n.
pub open spec fn add_result(r: Registers, n: u8) -> Registers {
    let sum = r.a as int + n as int;
    let res = (sum % 256) as u8;
    Registers { a: res, f: flags(res == 0, false, r.a % 16 + n % 16 > 15, sum > 255), ..r }
}

/// ADC A, n: the carry flag is added in.
pub open spec fn adc_result(r: Registers, n: u8) -> Registers {
    let cin = bit_value(r.f.carry) as int;
    let sum = r.a as int + n as int + cin;
    let res = (sum % 256) as u8;
    Registers {
        a: res,
        f: flags(res == 0, false, r.a % 16 + n % 16 + cin > 15, sum > 255),
        ..r
    }
}

/// SUB n: C is a borrow out of bit 7, H a borrow out of bit 3.
pub open spec fn sub_result(r: Registers, n: u8) -> Registers {
    let res = ((r.a as int - n as int + 256) % 256) as u8;
    Registers { a: res, f: flags(res == 0, true, r.a % 16 < n % 16, r.a < n), ..r }
}

/// SBC A, n: the carry flag is subtracted too.
pub open spec fn sbc_result(r: Registers, n: u8) -> Registers {
    let cin = bit_value(r.f.carry) as int;
    let a = r.a as int;
    let b = n as int;
    let res = ((a - b - cin + 512) % 256) as u8;
    Registers { a: res, f: flags(res == 0, true, a % 16 < b % 16 + cin, a < b + cin), ..r }
}

/// AND n: H is set.
pub open spec fn and_result(r: Registers, n: u8) -> Registers {
    let res = r.a & n;
    Registers { a: res, f: flags(res == 0, false, true, false), ..r }
}

/// XOR n.
pub open spec fn xor_result(r: Registers, n: u8) -> Registers {
    let res = r.a ^ n;
    Registers { a: res, f: flags(res == 0, false, false, false), ..r }
}

/// OR n.
pub open spec fn or_result(r: Registers, n: u8) -> Registers {
    let res = r.a | n;
    Registers { a: res, f: flags(res == 0, false, false, false), ..r }
}

/// CP n: the flags of SUB n, with A left as it was.
pub open spec fn cp_result(r: Registers, n: u8) -> Registers {
    Registers { f: sub_result(r, n).f, ..r }
}

pub open spec fn alu_result(r: Registers, op: Alu, n: u8) -> Registers {
    match op {
        Alu::Add => add_result(r, n),
        Alu::Adc => adc_result(r, n),
        Alu::Sub => sub_result(r, n),
        Alu::Sbc => sbc_result(r, n),
        Alu::And => and_result(r, n),
        Alu::Xor => xor_result(r, n),
        Alu::Or => or_result(r, n),
        Alu::Cp => cp_result(r, n),
    }
}

impl Cpu {
    pub open spec fn with_registers(self, r: Registers) -> Cpu {
        Cpu { registers: r, ..self }
    }

    pub open spec fn with_flags(self, f: FlagsRegister) -> Cpu {
        self.with_registers(self.registers.with_flags(f))
    }

    pub open spec fn with_pc(self, pc: u16) -> Cpu {
        Cpu { pc, ..self }
    }

    pub open spec fn with_sp(self, sp: u16) -> Cpu {
        self.with_registers(Registers { sp, ..self.registers })
    }
}

// ---------------------------------------------------------------------------
// Operands, fetching and the stack.

/// The value of an 8-bit operand: a register, or the byte at (HL).
pub open spec fn operand(c: Cpu, m: Seq<u8>, reg: Register) -> u8 {
    if reg is HLDirect {
        m[c.registers.spec_hl() as int]
    } else {
        c.registers.spec_get_r(&reg)
    }
}

/// The state after storing `v` into an 8-bit operand.
pub open spec fn with_operand(c: Cpu, m: Seq<u8>, reg: Register, v: u8) -> (Cpu, Seq<u8>) {
    if reg is HLDirect {
        (c, written(m, c.registers.spec_hl(), v))
    } else {
        (c.with_registers(c.registers.with_r(reg, v)), m)
    }
}

/// Fetching the byte at PC. PC advances unless the HALT bug is pending, in
/// which case the bug is consumed and PC stays.
pub open spec fn fetch(c: Cpu, m: Seq<u8>) -> (Cpu, u8) {
    let op = m[c.pc as int];
    if c.halt_bug {
        (Cpu { halt_bug: false, ..c }, op)
    } else {
        (c.with_pc(((c.pc + 1) % 0x10000) as u16), op)
    }
}

/// Fetching a little-endian 16-bit immediate.
pub open spec fn fetch_u16(c: Cpu, m: Seq<u8>) -> (Cpu, u16) {
    let (c1, low) = fetch(c, m);
    let (c2, high) = fetch(c1, m);
    (c2, word(high, low))
}

/// The word on top of the stack (low byte at SP).
pub open spec fn pop_value(c: Cpu, m: Seq<u8>) -> u16 {
    let sp = c.registers.sp;
    word(m[((sp + 1) % 0x10000) as int], m[sp as int])
}

/// The CPU after a pop: SP up by two.
pub open spec fn pop_cpu(c: Cpu) -> Cpu {
    c.with_sp(((c.registers.sp + 2) % 0x10000) as u16)
}

/// Pushing a word: the high byte goes to SP-1, the low byte to SP-2, and SP
/// ends two lower.
pub open spec fn push(c: Cpu, m: Seq<u8>, nn: u16) -> (Cpu, Seq<u8>) {
    let sp1 = ((c.registers.sp + 0xFFFF) % 0x10000) as u16;
    let sp2 = ((c.registers.sp + 0xFFFE) % 0x10000) as u16;
    (c.with_sp(sp2), written(written(m, sp1, high_byte(nn)), sp2, low_byte(nn)))
}

pub open spec fn pop_rp2(c: Cpu, m: Seq<u8>, rp: RegisterPair) -> Cpu {
    let c1 = pop_cpu(c);
    c1.with_registers(c1.registers.with_rp(rp, pop_value(c, m)))
}

pub open spec fn push_rp2(c: Cpu, m: Seq<u8>, rp: RegisterPair) -> (Cpu, Seq<u8>) {
    push(c, m, c.registers.spec_get_rp(&rp))
}

// ---------------------------------------------------------------------------
// Where memory may be accessed. Reads and writes of the echo range are not
// defined (see `crate::memory::accessible`), so each instruction is carried
// out only when every address it touches is accessible.

/// Whether the byte at PC can be fetched.
pub open spec fn fetch_ok(c: Cpu) -> bool {
    accessible(c.pc)
}

/// Whether a 16-bit immediate can be fetched.
pub open spec fn fetch_u16_ok(c: Cpu, m: Seq<u8>) -> bool {
    fetch_ok(c) && fetch_ok(fetch(c, m).0)
}

/// Whether the two bytes on top of the stack can be popped.
pub open spec fn pop_ok(c: Cpu) -> bool {
    accessible(c.registers.sp) && accessible(((c.registers.sp + 1) % 0x10000) as u16)
}

/// Whether the two bytes below SP can be pushed to.
pub open spec fn push_ok(c: Cpu) -> bool {
    accessible(((c.registers.sp + 0xFFFF) % 0x10000) as u16) && accessible(
        ((c.registers.sp + 0xFFFE) % 0x10000) as u16,
    )
}

/// Whether an 8-bit operand can be read and written: a register always, the
/// byte at (HL) when HL is accessible.
pub open spec fn operand_ok(c: Cpu, reg: Register) -> bool {
    reg is HLDirect ==> accessible(c.registers.spec_hl())
}

/// The operand of a rotate or shift.
pub open spec fn rot_operand(op: CBRot) -> Register {
    match op {
        CBRot::Rlc(reg) => reg,
        CBRot::Rrc(reg) => reg,
        CBRot::Rl(reg) => reg,
        CBRot::Rr(reg) => reg,
        CBRot::Sla(reg) => reg,
        CBRot::Sra(reg) => reg,
        CBRot::Swap(reg) => reg,
        CBRot::Srl(reg) => reg,
    }
}

// ---------------------------------------------------------------------------
// Control flow.

/// JR cc, n: a relative jump by a signed offset.
pub open spec fn jr(c: Cpu, cond: Condition, n: i8) -> Cpu {
    if c.registers.spec_cc_match(&cond) {
        c.with_pc(add_signed_u16(c.pc, n as int))
    } else {
        c
    }
}

/// JP cc, nn.
pub open spec fn jp(c: Cpu, cond: Condition, nn: u16) -> Cpu {
    if c.registers.spec_cc_match(&cond) {
        c.with_pc(nn)
    } else {
        c
    }
}

/// CALL cc, nn: push PC and jump.
pub open spec fn call(c: Cpu, m: Seq<u8>, cond: Condition, nn: u16) -> (Cpu, Seq<u8>) {
    if c.registers.spec_cc_match(&cond) {
        let (c1, m1) = push(c, m, c.pc);
        (c1.with_pc(nn), m1)
    } else {
        (c, m)
    }
}

/// RST: push PC and jump to `y * 8`.
pub open spec fn rst(c: Cpu, m: Seq<u8>, y: u8) -> (Cpu, Seq<u8>) {
    let (c1, m1) = push(c, m, c.pc);
    (c1.with_pc((y * 8) as u16), m1)
}

/// RET cc: pop PC.
pub open spec fn ret(c: Cpu, m: Seq<u8>, cond: Condition) -> Cpu {
    if c.registers.spec_cc_match(&cond) {
        pop_cpu(c).with_pc(pop_value(c, m))
    } else {
        c
    }
}

/// RETI: enable interrupts and return.
pub open spec fn reti(c: Cpu, m: Seq<u8>) -> Cpu {
    ret(Cpu { ime: true, ..c }, m, Condition::Always)
}

/// HALT. With interrupts enabled, or with none pending, the CPU halts;
/// otherwise the HALT bug is armed: the next fetch does not advance PC.
pub open spec fn halt(c: Cpu, m: Seq<u8>) -> Cpu {
    let pending = m[0xFFFF] & m[0xFF0F] != 0;
    if c.ime || !pending {
        Cpu { halted: true, ..c }
    } else {
        Cpu { halt_bug: true, ..c }
    }
}

// ---------------------------------------------------------------------------
// Bit operations (the CB table).

/// Whether bit `y` of `v` is set.
pub open spec fn bit_is_set(v: u8, y: u8) -> bool {
    (v >> y) & 1 == 1
}

/// BIT y, r: Z is the complement of the bit; H set, N cleared, C kept.
pub open spec fn bit(c: Cpu, m: Seq<u8>, y: u8, reg: Register) -> Cpu {
    let n = operand(c, m, reg);
    c.with_flags(
        FlagsRegister {
            zero: (n >> y) & 1 == 0,
            half_carry: true,
            subtract: false,
            ..c.registers.f
        },
    )
}

/// RES y, r: bit y cleared; flags kept.
pub open spec fn reset_bit(c: Cpu, m: Seq<u8>, y: u8, reg: Register) -> (Cpu, Seq<u8>) {
    with_operand(c, m, reg, operand(c, m, reg) & !(1u8 << y))
}

/// SET y, r: bit y set; flags kept.
pub open spec fn set_bit(c: Cpu, m: Seq<u8>, y: u8, reg: Register) -> (Cpu, Seq<u8>) {
    with_operand(c, m, reg, operand(c, m, reg) | (1u8 << y))
}

/// Storing the result of a shift or rotate, then setting all four flags:
/// Z from the result, N and H cleared, C the bit shifted out.
pub open spec fn shifted(c: Cpu, m: Seq<u8>, reg: Register, res: u8, carry: bool) -> (
    Cpu,
    Seq<u8>,
) {
    let (c1, m1) = with_operand(c, m, reg, res);
    (c1.with_flags(flags(res == 0, false, false, carry)), m1)
}

/// RLC / RL on any operand: bit 7 goes to C; bit 0 gets bit 7 (RLC) or the
/// old carry (RL).
pub open spec fn rotate_left(c: Cpu, m: Seq<u8>, reg: Register, through_carry: bool) -> (
    Cpu,
    Seq<u8>,
) {
    let v = operand(c, m, reg);
    let carry_in = if through_carry {
        c.registers.f.carry
    } else {
        v >= 128
    };
    shifted(c, m, reg, shl_in(v, carry_in), v >= 128)
}

/// RRC / RR on any operand: bit 0 goes to C; bit 7 gets bit 0 (RRC) or the
/// old carry (RR).
pub open spec fn rotate_right(c: Cpu, m: Seq<u8>, reg: Register, through_carry: bool) -> (
    Cpu,
    Seq<u8>,
) {
    let v = operand(c, m, reg);
    let carry_in = if through_carry {
        c.registers.f.carry
    } else {
        v % 2 == 1
    };
    shifted(c, m, reg, shr_in(v, carry_in), v % 2 == 1)
}

/// SLA: shift left, 0 into bit 0.
pub open spec fn sla(c: Cpu, m: Seq<u8>, reg: Register) -> (Cpu, Seq<u8>) {
    let v = operand(c, m, reg);
    shifted(c, m, reg, shl_in(v, false), v >= 128)
}

/// SRA: shift right keeping bit 7.
pub open spec fn sra(c: Cpu, m: Seq<u8>, reg: Register) -> (Cpu, Seq<u8>) {
    let v = operand(c, m, reg);
    shifted(c, m, reg, shr_in(v, v >= 128), v % 2 == 1)
}

/// SRL: shift right, 0 into bit 7.
pub open spec fn srl(c: Cpu, m: Seq<u8>, reg: Register) -> (Cpu, Seq<u8>) {
    let v = operand(c, m, reg);
    shifted(c, m, reg, shr_in(v, false), v % 2 == 1)
}

/// SWAP: exchange the two nibbles; C cleared.
pub open spec fn swap(c: Cpu, m: Seq<u8>, reg: Register) -> (Cpu, Seq<u8>) {
    let v = operand(c, m, reg);
    shifted(c, m, reg, ((v % 16) * 16 + v / 16) as u8, false)
}

pub open spec fn rot_table(c: Cpu, m: Seq<u8>, op: CBRot) -> (Cpu, Seq<u8>) {
    match op {
        CBRot::Rlc(reg) => rotate_left(c, m, reg, false),
        CBRot::Rrc(reg) => rotate_right(c, m, reg, false),
        CBRot::Rl(reg) => rotate_left(c, m, reg, true),
        CBRot::Rr(reg) => rotate_right(c, m, reg, true),
        CBRot::Sla(reg) => sla(c, m, reg),
        CBRot::Sra(reg) => sra(c, m, reg),
        CBRot::Swap(reg) => swap(c, m, reg),
        CBRot::Srl(reg) => srl(c, m, reg),
    }
}

// ---------------------------------------------------------------------------
// 8-bit increments and decrements on any operand.

/// INC r: N cleared, Z and H from the result; C kept. The flags are set
/// before the result is stored.
pub open spec fn inc_r(c: Cpu, m: Seq<u8>, reg: Register) -> (Cpu, Seq<u8>) {
    let v = operand(c, m, reg);
    let res = ((v + 1) % 256) as u8;
    let c1 = c.with_flags(
        FlagsRegister { subtract: false, zero: res == 0, half_carry: v % 16 == 15, ..c.registers.f },
    );
    with_operand(c1, m, reg, res)
}

/// DEC r: N set, Z from the result, H when the low nibble borrows; C kept.
pub open spec fn dec_r(c: Cpu, m: Seq<u8>, reg: Register) -> (Cpu, Seq<u8>) {
    let v = operand(c, m, reg);
    let res = ((v + 255) % 256) as u8;
    let c1 = c.with_flags(
        FlagsRegister { subtract: true, zero: res == 0, half_carry: v % 16 == 0, ..c.registers.f },
    );
    with_operand(c1, m, reg, res)
}

// ---------------------------------------------------------------------------
// The accumulator row, ALU dispatch, stack pointer arithmetic and loads.

/// RLCA / RLA / RRCA / RRA: the register rotates on A, which clear Z.
pub open spec fn acc_flags(c: Cpu, op: AccFlag) -> Cpu {
    let r = c.registers;
    c.with_registers(
        match op {
            AccFlag::Rlca => r.rotate_left_result(Register::A, false),
            AccFlag::Rrca => r.rotate_right_result(Register::A, false),
            AccFlag::Rla => r.rotate_left_result(Register::A, true),
            AccFlag::Rra => r.rotate_right_result(Register::A, true),
            AccFlag::Daa => r.daa_result(),
            AccFlag::Cpl => r.cpl_result(),
            AccFlag::Scf => r.scf_result(),
            AccFlag::Ccf => r.ccf_result(),
        },
    )
}

pub open spec fn alu_op_n(c: Cpu, op: Alu, n: u8) -> Cpu {
    c.with_registers(alu_result(c.registers, op, n))
}

pub open spec fn alu_op_r(c: Cpu, m: Seq<u8>, op: Alu, reg: Register) -> Cpu {
    alu_op_n(c, op, operand(c, m, reg))
}

/// The unsigned byte with the bits of `d`.
pub open spec fn unsigned_byte(d: i8) -> int {
    if d < 0 {
        d + 256
    } else {
        d as int
    }
}

/// The flags of SP + d: Z and N cleared, H and C from adding `d`'s byte to
/// the low byte of SP.
pub open spec fn sp_plus_d_flags(sp: u16, d: i8) -> FlagsRegister {
    let du = unsigned_byte(d);
    flags(false, false, sp % 16 + du % 16 > 15, sp % 256 + du > 255)
}

/// ADD SP, d.
pub open spec fn add_sp_d(c: Cpu, d: i8) -> Cpu {
    let sp = c.registers.sp;
    c.with_registers(
        Registers { sp: add_signed_u16(sp, d as int), f: sp_plus_d_flags(sp, d), ..c.registers },
    )
}

/// LD HL, SP + d.
pub open spec fn ld_hl_sp_d(c: Cpu, d: i8) -> Cpu {
    let sp = c.registers.sp;
    c.with_registers(
        c.registers.with_flags(sp_plus_d_flags(sp, d)).with_rp(
            RegisterPair::HL,
            add_signed_u16(sp, d as int),
        ),
    )
}

/// LD (nn), SP: low byte at nn, high byte at nn + 1.
pub open spec fn ld_nn_sp(c: Cpu, m: Seq<u8>, nn: u16) -> Seq<u8> {
    let sp = c.registers.sp;
    written(written(m, nn, low_byte(sp)), (nn + 1) as u16, high_byte(sp))
}

/// Loading a register from memory.
pub open spec fn ld_r_nn(c: Cpu, m: Seq<u8>, reg: Register, nn: u16) -> Cpu {
    c.with_registers(c.registers.with_r(reg, m[nn as int]))
}

/// Storing a register to memory.
pub open spec fn ld_nn_r(c: Cpu, m: Seq<u8>, nn: u16, reg: Register) -> Seq<u8> {
    written(m, nn, c.registers.spec_get_r(&reg))
}

pub open spec fn ld_r_r(c: Cpu, r1: Register, r2: Register) -> Cpu {
    c.with_registers(c.registers.with_r(r1, c.registers.spec_get_r(&r2)))
}

// ---------------------------------------------------------------------------
// Decoding. An opcode is read as `xxyyyzzz`; `p` is `y >> 1`, `q` is `y & 1`.

pub open spec fn op_x(op: u8) -> u8 {
    op / 64
}

pub open spec fn op_y(op: u8) -> u8 {
    (op / 8) % 8
}

pub open spec fn op_z(op: u8) -> u8 {
    op % 8
}

/// The fields of an opcode `xxyyyzzz` are its bits 7..6, 5..3 and 2..0.
pub proof fn lemma_opcode_fields(op: u8)
    ensures
        op >> 6u8 == op_x(op),
        (op >> 3u8) & 0b111u8 == op_y(op),
        op & 0b111u8 == op_z(op),
        op_x(op) <= 3,
        op_y(op) <= 7,
        op_z(op) <= 7,
{
    assert(op >> 6u8 == op / 64) by (bit_vector);
    assert((op >> 3u8) & 0b111u8 == (op / 8) % 8) by (bit_vector);
    assert(op & 0b111u8 == op % 8) by (bit_vector);
}

/// The address `0xFF00 + n` of the I/O page.
pub open spec fn io_addr(n: u8) -> u16 {
    (0xFF00 + n as int) as u16
}

/// Whether the decoder carries out `op`. It stops on the conditional RET,
/// JP and CALL (their condition table has entries for y = 4..7 only), on
/// the opcodes that do not exist (D3, DB, DD, E3, E4, EB, EC, ED, F4, FC,
/// FD), and on the rest of the `11yyy100` column.
pub open spec fn opcode_supported(op: u8) -> bool {
    let y = op_y(op);
    let z = op_z(op);
    op == 0xCB || op_x(op) != 3 || {
        &&& z == 0 ==> y >= 4
        &&& z == 2 ==> y >= 4
        &&& z == 3 ==> (y == 0 || y == 6 || y == 7)
        &&& z != 4
        &&& z == 5 ==> (y % 2 == 0 || y == 1)
    }
}

/// Whether executing `op` in this state runs to completion: the opcode is
/// supported and every memory access it makes is defined (which for LD
/// (nn), SP includes that nn + 1 does not overflow).
pub open spec fn decode_ok(c: Cpu, m: Seq<u8>, op: u8) -> bool {
    &&& opcode_supported(op)
    &&& step_ok(c, m, op)
}

/// The accesses of the `00yyyzzz` quarter.
pub open spec fn step_x0_ok(c: Cpu, m: Seq<u8>, y: u8, z: u8) -> bool {
    let p = y / 2;
    let q = y % 2;
    let hl = c.registers.spec_hl();
    if z == 0 {
        if y == 0 {
            true
        } else if y == 1 {
            let nn = fetch_u16(c, m).1;
            &&& fetch_u16_ok(c, m)
            &&& nn != 0xFFFF
            &&& accessible(nn)
            &&& accessible((nn + 1) as u16)
        } else {
            fetch_ok(c)
        }
    } else if z == 1 {
        q == 0 ==> fetch_u16_ok(c, m)
    } else if z == 2 {
        if p == 2 || p == 3 {
            accessible(hl)
        } else {
            accessible(c.registers.spec_get_rp(&spec_rp(p)))
        }
    } else if z == 4 || z == 5 {
        y == 6 ==> accessible(hl)
    } else if z == 6 {
        fetch_ok(c) && (y == 6 ==> accessible(hl))
    } else {
        true
    }
}

/// The accesses of the `01yyyzzz` quarter.
pub open spec fn step_x1_ok(c: Cpu, y: u8, z: u8) -> bool {
    (y == 6 || z == 6) && !(y == 6 && z == 6) ==> accessible(c.registers.spec_hl())
}

/// The accesses of the `11yyyzzz` quarter.
pub open spec fn step_x3_ok(c: Cpu, m: Seq<u8>, y: u8, z: u8) -> bool {
    let p = y / 2;
    let q = y % 2;
    if z == 0 || z == 6 {
        fetch_ok(c)
    } else if z == 1 {
        q == 0 || p <= 1 ==> pop_ok(c)
    } else if z == 2 {
        y == 5 || y == 7 ==> fetch_u16_ok(c, m) && accessible(fetch_u16(c, m).1)
    } else if z == 3 {
        y == 0 ==> fetch_u16_ok(c, m)
    } else if z == 5 {
        push_ok(c) && (q == 1 ==> fetch_u16_ok(c, m))
    } else if z == 7 {
        push_ok(c)
    } else {
        true
    }
}

/// Whether every memory access of executing `op` is defined.
pub open spec fn step_ok(c: Cpu, m: Seq<u8>, op: u8) -> bool {
    if op == 0xCB {
        fetch_ok(c) && operand_ok(fetch(c, m).0, spec_r(op_z(fetch(c, m).1)))
    } else {
        let x = op_x(op);
        let y = op_y(op);
        let z = op_z(op);
        if x == 0 {
            step_x0_ok(c, m, y, z)
        } else if x == 1 {
            step_x1_ok(c, y, z)
        } else if x == 2 {
            operand_ok(c, spec_r(z))
        } else {
            step_x3_ok(c, m, y, z)
        }
    }
}

/// The `00yyyzzz` quarter: loads of immediates, 16-bit increments and
/// additions, indirect loads through BC, DE and HL+/HL-, 8-bit increments
/// and decrements, relative jumps and the accumulator row.
pub open spec fn step_x0(c: Cpu, m: Seq<u8>, y: u8, z: u8) -> (Cpu, Seq<u8>) {
    let q = y % 2;
    let p = y / 2;
    let hl = c.registers.spec_hl();
    if z == 0 {
        if y == 0 {
            (c, m)
        } else if y == 1 {
            let (c1, nn) = fetch_u16(c, m);
            (c1, ld_nn_sp(c1, m, nn))
        } else if y == 2 {
            (fetch(c, m).0, m)
        } else {
            let (c1, n) = fetch(c, m);
            let cond = if y == 3 {
                Condition::Always
            } else {
                spec_cc(y)
            };
            (jr(c1, cond, n as i8), m)
        }
    } else if z == 1 {
        if q == 0 {
            let (c1, nn) = fetch_u16(c, m);
            (c1.with_registers(c1.registers.with_rp(spec_rp(p), nn)), m)
        } else {
            (c.with_registers(c.registers.add_hl_result(spec_rp(p))), m)
        }
    } else if z == 2 {
        let addr = if p == 2 || p == 3 {
            hl
        } else {
            c.registers.spec_get_rp(&spec_rp(p))
        };
        let r1 = if p == 2 {
            c.registers.with_rp(RegisterPair::HL, ((hl + 1) % 0x10000) as u16)
        } else if p == 3 {
            c.registers.with_rp(RegisterPair::HL, ((hl + 0xFFFF) % 0x10000) as u16)
        } else {
            c.registers
        };
        if q == 0 {
            (c.with_registers(r1), written(m, addr, r1.a))
        } else {
            (c.with_registers(Registers { a: m[addr as int], ..r1 }), m)
        }
    } else if z == 3 {
        let pair = spec_rp(p);
        let v = c.registers.spec_get_rp(&pair);
        let nv = if q == 0 {
            (v + 1) % 0x10000
        } else {
            (v + 0xFFFF) % 0x10000
        };
        (c.with_registers(c.registers.with_rp(pair, nv as u16)), m)
    } else if z == 4 {
        if y == 6 {
            (c, written(m, hl, ((m[hl as int] + 1) % 256) as u8))
        } else {
            inc_r(c, m, spec_r(y))
        }
    } else if z == 5 {
        if y == 6 {
            (c, written(m, hl, ((m[hl as int] + 255) % 256) as u8))
        } else {
            dec_r(c, m, spec_r(y))
        }
    } else if z == 6 {
        let (c1, n) = fetch(c, m);
        if y == 6 {
            (c1, written(m, c1.registers.spec_hl(), n))
        } else {
            (c1.with_registers(c1.registers.with_r(spec_r(y), n)), m)
        }
    } else {
        (acc_flags(c, spec_af(y)), m)
    }
}

/// The `01yyyzzz` quarter: 8-bit register loads, and HALT in place of
/// LD (HL), (HL).
pub open spec fn step_x1(c: Cpu, m: Seq<u8>, y: u8, z: u8) -> (Cpu, Seq<u8>) {
    let hl = c.registers.spec_hl();
    if y == 6 && z == 6 {
        (halt(c, m), m)
    } else if z == 6 {
        (ld_r_nn(c, m, spec_r(y), hl), m)
    } else if y == 6 {
        (c, ld_nn_r(c, m, hl, spec_r(z)))
    } else {
        (ld_r_r(c, spec_r(y), spec_r(z)), m)
    }
}

/// The `11yyyzzz` quarter: returns, pops and pushes, jumps and calls, I/O
/// page loads, stack pointer arithmetic, immediate ALU operations, RST and
/// the interrupt enable switches.
pub open spec fn step_x3(c: Cpu, m: Seq<u8>, y: u8, z: u8) -> (Cpu, Seq<u8>) {
    let q = y % 2;
    let p = y / 2;
    let hl = c.registers.spec_hl();
    if z == 0 {
        let (c1, n) = fetch(c, m);
        if y == 4 {
            (c1, ld_nn_r(c1, m, io_addr(n), Register::A))
        } else if y == 5 {
            (add_sp_d(c1, n as i8), m)
        } else if y == 6 {
            (ld_r_nn(c1, m, Register::A, io_addr(n)), m)
        } else if y == 7 {
            (ld_hl_sp_d(c1, n as i8), m)
        } else {
            (c, m)
        }
    } else if z == 1 {
        if q == 0 {
            (pop_rp2(c, m, spec_rp2(p)), m)
        } else if p == 0 {
            (ret(c, m, Condition::Always), m)
        } else if p == 1 {
            (reti(c, m), m)
        } else if p == 2 {
            (jp(c, Condition::Always, hl), m)
        } else {
            (c.with_sp(hl), m)
        }
    } else if z == 2 {
        if y == 4 {
            (c, ld_nn_r(c, m, io_addr(c.registers.c), Register::A))
        } else if y == 5 {
            let (c1, nn) = fetch_u16(c, m);
            (c1, ld_nn_r(c1, m, nn, Register::A))
        } else if y == 6 {
            (ld_r_nn(c, m, Register::A, io_addr(c.registers.c)), m)
        } else if y == 7 {
            let (c1, nn) = fetch_u16(c, m);
            (ld_r_nn(c1, m, Register::A, nn), m)
        } else {
            (c, m)
        }
    } else if z == 3 {
        if y == 0 {
            let (c1, nn) = fetch_u16(c, m);
            (jp(c1, Condition::Always, nn), m)
        } else if y == 6 {
            (Cpu { ime: false, ..c }, m)
        } else if y == 7 {
            (Cpu { ime: true, ..c }, m)
        } else {
            (c, m)
        }
    } else if z == 5 {
        if q == 0 {
            push_rp2(c, m, spec_rp2(p))
        } else if p == 0 {
            let (c1, nn) = fetch_u16(c, m);
            call(c1, m, Condition::Always, nn)
        } else {
            (c, m)
        }
    } else if z == 6 {
        let (c1, n) = fetch(c, m);
        (alu_op_n(c1, spec_alu(y), n), m)
    } else if z == 7 {
        rst(c, m, y)
    } else {
        (c, m)
    }
}

/// The CB-prefixed table: rotates and shifts, BIT, RES and SET.
pub open spec fn cb_step(c: Cpu, m: Seq<u8>, n: u8) -> (Cpu, Seq<u8>) {
    let x = op_x(n);
    let y = op_y(n);
    let z = op_z(n);
    if x == 0 {
        rot_table(c, m, spec_rot(y, z))
    } else if x == 1 {
        (bit(c, m, y, spec_r(z)), m)
    } else if x == 2 {
        reset_bit(c, m, y, spec_r(z))
    } else {
        set_bit(c, m, y, spec_r(z))
    }
}

/// Executing the opcode `op` (already fetched) in a state.
pub open spec fn step(c: Cpu, m: Seq<u8>, op: u8) -> (Cpu, Seq<u8>) {
    if op == 0xCB {
        let (c1, n) = fetch(c, m);
        cb_step(c1, m, n)
    } else {
        let x = op_x(op);
        let y = op_y(op);
        let z = op_z(op);
        if x == 0 {
            step_x0(c, m, y, z)
        } else if x == 1 {
            step_x1(c, m, y, z)
        } else if x == 2 {
            (alu_op_r(c, m, spec_alu(y), spec_r(z)), m)
        } else {
            step_x3(c, m, y, z)
        }
    }
}

/// Whether the CPU can take its next step: when halted it does nothing,
/// otherwise the opcode at PC must be fetchable and one it carries out.
pub open spec fn run_ok(c: Cpu, m: Seq<u8>) -> bool {
    c.halted || {
        let (c1, op) = fetch(c, m);
        fetch_ok(c) && decode_ok(c1, m, op)
    }
}

/// One step of a CPU: nothing while halted, else fetch and execute.
pub open spec fn run_step(c: Cpu, m: Seq<u8>) -> (Cpu, Seq<u8>) {
    if c.halted {
        (c, m)
    } else {
        let (c1, op) = fetch(c, m);
        step(c1, m, op)
    }
}

} // verus!
