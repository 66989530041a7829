//! What the opcodes mean, stated directly over registers, flags and memory:
//! which register an operand field names, which operation a field selects,
//! and what the instruction computes. These pin the decoder (`step`) to the
//! SM83 instruction set independently of the operand tables in `helpers`.

use vstd::prelude::*;
use crate::bits::{add_signed_u16, high_byte, low_byte, word, shl_in, shr_in};
use crate::cpu::Cpu;
use crate::cpu::helpers::{spec_r, spec_alu, spec_rp, spec_rp2, spec_rot};
use crate::cpu::semantics::{
    step, step_x0, step_x1, step_x3, alu_op_r, shifted, rot_table, fetch, push, fetch_u16, op_x,
    op_y, op_z, alu_result, ld_hl_sp_d, add_sp_d, add_result, sub_result,
};
use crate::cpu::Alu;
use crate::cpu::laws::{bcd_value, is_bcd, lemma_daa_after_add, lemma_daa_after_sub};
use crate::memory::{mapped, accessible, written};
use crate::registers::{FlagsRegister, Registers, in_register_file};

verus! {

/// The 8-bit register that operand number `k` names: 0 to 7 are B, C, D, E,
/// H, L, (HL) and A. (HL) is not a register; it reads as 0 here.
pub open spec fn reg_number(r: Registers, k: u8) -> u8 {
    if k == 0 {
        r.b
    } else if k == 1 {
        r.c
    } else if k == 2 {
        r.d
    } else if k == 3 {
        r.e
    } else if k == 4 {
        r.h
    } else if k == 5 {
        r.l
    } else if k == 6 {
        0
    } else {
        r.a
    }
}

/// Whether two register files agree on the flags, SP and every 8-bit
/// register except operand number `k`.
pub open spec fn agree_except(r1: Registers, r2: Registers, k: u8) -> bool {
    &&& k != 0 ==> r1.b == r2.b
    &&& k != 1 ==> r1.c == r2.c
    &&& k != 2 ==> r1.d == r2.d
    &&& k != 3 ==> r1.e == r2.e
    &&& k != 4 ==> r1.h == r2.h
    &&& k != 5 ==> r1.l == r2.l
    &&& k != 7 ==> r1.a == r2.a
    &&& r1.f == r2.f
    &&& r1.sp == r2.sp
}

/// LD r, r' (`01yyyzzz`, neither field 6): the register named by y takes the
/// old value of the register named by z; nothing else changes.
pub proof fn lemma_ld_r_r_opcode(c: Cpu, m: Seq<u8>, y: u8, z: u8)
    requires
        y < 8,
        z < 8,
        y != 6,
        z != 6,
    ensures
        ({
            let (c2, m2) = step(c, m, (0x40 + 8 * y + z) as u8);
            &&& reg_number(c2.registers, y) == reg_number(c.registers, z)
            &&& agree_except(c2.registers, c.registers, y)
            &&& c2.pc == c.pc
            &&& c2.ime == c.ime
            &&& c2.halted == c.halted
            &&& c2.halt_bug == c.halt_bug
            &&& m2 == m
        }),
{
    let op = (0x40 + 8 * y + z) as u8;
    lemma_fields(op, 1, y, z);
    lemma_register_number(c.registers, z);
    lemma_set_register_number(c.registers, y, reg_number(c.registers, z));
    assert(step(c, m, op) == step_x1(c, m, y, z));
}

/// The value that ALU operation number `y` (0 to 7: ADD, ADC, SUB, SBC,
/// AND, XOR, OR, CP) leaves in A, from A, the operand `v` and the carry.
pub open spec fn alu_number_a(y: u8, a: u8, v: u8, carry: bool) -> u8 {
    let cin: int = if carry {
        1
    } else {
        0
    };
    if y == 0 {
        ((a + v) % 256) as u8
    } else if y == 1 {
        ((a + v + cin) % 256) as u8
    } else if y == 2 {
        ((a - v + 256) % 256) as u8
    } else if y == 3 {
        ((a - v - cin + 512) % 256) as u8
    } else if y == 4 {
        a & v
    } else if y == 5 {
        a ^ v
    } else if y == 6 {
        a | v
    } else {
        a
    }
}

/// The carry flag after ALU operation number `y`: the carry (or borrow)
/// out of bit 7; cleared by the logical operations.
pub open spec fn alu_number_carry(y: u8, a: u8, v: u8, carry: bool) -> bool {
    let cin: int = if carry {
        1
    } else {
        0
    };
    if y == 0 {
        a + v > 255
    } else if y == 1 {
        a + v + cin > 255
    } else if y == 2 || y == 7 {
        a < v
    } else if y == 3 {
        a < v + cin
    } else {
        false
    }
}

/// The half-carry flag after ALU operation number `y`: the carry (or
/// borrow) out of bit 3; set by AND, cleared by XOR and OR.
pub open spec fn alu_number_half_carry(y: u8, a: u8, v: u8, carry: bool) -> bool {
    let cin: int = if carry {
        1
    } else {
        0
    };
    if y == 0 {
        a % 16 + v % 16 > 15
    } else if y == 1 {
        a % 16 + v % 16 + cin > 15
    } else if y == 2 || y == 7 {
        a % 16 < v % 16
    } else if y == 3 {
        a % 16 < v % 16 + cin
    } else {
        y == 4
    }
}

/// The register file after ALU operation number `y` with operand `v`:
/// A and the four flags as above (Z: the result is zero, or for CP, A
/// equals v; N: set by SUB, SBC and CP), everything else as it was.
pub open spec fn alu_number_ok(r: Registers, r2: Registers, y: u8, v: u8) -> bool {
    let a = r.a;
    let carry = r.f.carry;
    let res = alu_number_a(y, a, v, carry);
    &&& r2.a == res
    &&& r2.f.zero == if y == 7 {
        a == v
    } else {
        res == 0
    }
    &&& r2.f.subtract == (y == 2 || y == 3 || y == 7)
    &&& r2.f.half_carry == alu_number_half_carry(y, a, v, carry)
    &&& r2.f.carry == alu_number_carry(y, a, v, carry)
    &&& r2.b == r.b && r2.c == r.c && r2.d == r.d && r2.e == r.e && r2.h == r.h && r2.l == r.l
    &&& r2.sp == r.sp
}

/// Each of the eight ALU operations computes what its name says: ADD and
/// ADC add, SUB and SBC subtract, AND, XOR and OR combine bitwise, CP
/// compares without storing.
pub proof fn lemma_alu_operations(r: Registers, n: u8)
    ensures
        alu_number_ok(r, alu_result(r, Alu::Add, n), 0, n),
        alu_number_ok(r, alu_result(r, Alu::Adc, n), 1, n),
        alu_number_ok(r, alu_result(r, Alu::Sub, n), 2, n),
        alu_number_ok(r, alu_result(r, Alu::Sbc, n), 3, n),
        alu_number_ok(r, alu_result(r, Alu::And, n), 4, n),
        alu_number_ok(r, alu_result(r, Alu::Xor, n), 5, n),
        alu_number_ok(r, alu_result(r, Alu::Or, n), 6, n),
        alu_number_ok(r, alu_result(r, Alu::Cp, n), 7, n),
{
    assert(((r.a as int - n as int + 256) % 256 == 0) == (r.a == n));
}

/// OR never clears a bit of A, and OR with A itself leaves A as it was.
pub proof fn lemma_or_keeps_bits(r: Registers, n: u8)
    ensures
        alu_result(r, Alu::Or, n).a & r.a == r.a,
        alu_result(r, Alu::Or, n).a & n == n,
        alu_result(r, Alu::Or, r.a).a == r.a,
{
    let a = r.a;
    assert((a | n) & a == a) by (bit_vector);
    assert((a | n) & n == n) by (bit_vector);
    assert(a | a == a) by (bit_vector);
}

/// ALU A, r (`10yyyzzz`, z not 6): operation number y on A and the register
/// named by z; PC and memory unchanged.
pub proof fn lemma_alu_register_opcode(c: Cpu, m: Seq<u8>, y: u8, z: u8)
    requires
        y < 8,
        z < 8,
        z != 6,
    ensures
        ({
            let (c2, m2) = step(c, m, (0x80 + 8 * y + z) as u8);
            &&& alu_number_ok(c.registers, c2.registers, y, reg_number(c.registers, z))
            &&& c2.pc == c.pc
            &&& m2 == m
        }),
{
    let op = (0x80 + 8 * y + z) as u8;
    lemma_fields(op, 2, y, z);
    lemma_register_number(c.registers, z);
    let v = reg_number(c.registers, z);
    lemma_alu_operations(c.registers, v);
    assert(step(c, m, op) == (alu_op_r(c, m, spec_alu(y), spec_r(z)), m));
}

/// ALU A, n (`11yyy110`): operation number y on A and the byte after the
/// opcode, which is consumed.
pub proof fn lemma_alu_immediate_opcode(c: Cpu, m: Seq<u8>, y: u8)
    requires
        y < 8,
        !c.halt_bug,
    ensures
        ({
            let (c2, m2) = step(c, m, (0xC6 + 8 * y) as u8);
            &&& alu_number_ok(c.registers, c2.registers, y, m[c.pc as int])
            &&& c2.pc == (c.pc + 1) % 0x10000
            &&& m2 == m
        }),
{
    let op = (0xC6 + 8 * y) as u8;
    lemma_fields(op, 3, y, 6);
    lemma_alu_operations(c.registers, m[c.pc as int]);
}

/// The value of a byte read as a two's complement number.
pub open spec fn signed(b: u8) -> int {
    if b >= 128 {
        b - 256
    } else {
        b as int
    }
}

/// ADD SP, d and LD HL, SP + d add the sign-extended offset to SP modulo
/// 2^16; the first stores the sum in SP, the second in HL leaving SP alone.
/// Both clear Z and N and take H and C from adding the offset's byte to
/// the low byte of SP.
pub proof fn lemma_sp_plus_offset(c: Cpu, d: i8)
    ensures
        add_sp_d(c, d).registers.sp as int == (c.registers.sp + d) % 0x10000,
        ld_hl_sp_d(c, d).registers.h as int * 256 + ld_hl_sp_d(c, d).registers.l as int == (
        c.registers.sp + d) % 0x10000,
        ld_hl_sp_d(c, d).registers.sp == c.registers.sp,
        ld_hl_sp_d(c, d).registers.a == c.registers.a,
        add_sp_d(c, d).registers.h == c.registers.h,
        add_sp_d(c, d).registers.l == c.registers.l,
        ld_hl_sp_d(c, d).registers.f == add_sp_d(c, d).registers.f,
        !add_sp_d(c, d).registers.f.zero,
        !add_sp_d(c, d).registers.f.subtract,
        add_sp_d(c, d).registers.f.carry == (c.registers.sp % 256 + (d + 256) % 256 > 255),
        add_sp_d(c, d).registers.f.half_carry == (c.registers.sp % 16 + (d + 256) % 16 > 15),
        ld_hl_sp_d(c, d).pc == c.pc,
        add_sp_d(c, d).pc == c.pc,
{
    let sp = c.registers.sp;
    let nn = add_signed_u16(sp, d as int);
    lemma_add_signed_value(sp, d as int);
    crate::bits::lemma_word_roundtrip(nn, 0, 0);
    assert(high_byte(nn) as int * 256 + low_byte(nn) as int == nn);
}

/// Adding a small signed number to a word modulo 2^16.
proof fn lemma_add_signed_value(x: u16, d: int)
    requires
        -128 <= d <= 127,
    ensures
        add_signed_u16(x, d) as int == (x + d) % 0x10000,
{
    if x + d < 0 {
        assert((x + d) % 0x10000 == x + d + 0x10000);
    } else if x + d >= 0x10000 {
        assert((x + d) % 0x10000 == x + d - 0x10000);
    } else {
        assert((x + d) % 0x10000 == x + d);
    }
}

/// The same through the decoder: ADD SP, d (0xE8) and LD HL, SP + d (0xF8)
/// take d from the byte after the opcode, read as a signed number.
pub proof fn lemma_sp_offset_opcodes(c: Cpu, m: Seq<u8>)
    requires
        !c.halt_bug,
    ensures
        step(c, m, 0xE8).0.registers.sp as int == (c.registers.sp + signed(m[c.pc as int]))
            % 0x10000,
        step(c, m, 0xF8).0.registers.h as int * 256 + step(c, m, 0xF8).0.registers.l as int == (
        c.registers.sp + signed(m[c.pc as int])) % 0x10000,
        step(c, m, 0xF8).0.registers.sp == c.registers.sp,
{
    lemma_fields(0xE8, 3, 5, 0);
    lemma_fields(0xF8, 3, 7, 0);
    let b = m[c.pc as int];
    crate::bits::lemma_signed_byte(b);
    let c1 = c.with_pc(((c.pc + 1) % 0x10000) as u16);
    lemma_sp_plus_offset(c1, b as i8);
}

/// Condition number `k` of the conditional instructions: 0 to 3 are NZ
/// (Z clear), Z (Z set), NC (C clear) and C (C set).
pub open spec fn condition_number(f: FlagsRegister, k: u8) -> bool {
    if k == 0 {
        !f.zero
    } else if k == 1 {
        f.zero
    } else if k == 2 {
        !f.carry
    } else {
        f.carry
    }
}

/// JR cc, d (`001kk000`) jumps by the signed byte after the opcode exactly
/// when condition number k holds, and otherwise goes on past that byte;
/// JR d (0x18) always jumps. Registers and memory are unchanged.
pub proof fn lemma_jr_opcodes(c: Cpu, m: Seq<u8>, k: u8)
    requires
        k < 4,
        !c.halt_bug,
    ensures
        ({
            let next = (c.pc + 1) % 0x10000;
            let target = (next + signed(m[c.pc as int])) % 0x10000;
            let (c2, m2) = step(c, m, (0x20 + 8 * k) as u8);
            let (c3, m3) = step(c, m, 0x18);
            &&& c2.pc == if condition_number(c.registers.f, k) {
                target
            } else {
                next
            }
            &&& c3.pc == target
            &&& c2.registers == c.registers
            &&& c3.registers == c.registers
            &&& m2 == m
            &&& m3 == m
        }),
{
    lemma_fields((0x20 + 8 * k) as u8, 0, (4 + k) as u8, 0);
    lemma_fields(0x18, 0, 3, 0);
    let b = m[c.pc as int];
    crate::bits::lemma_signed_byte(b);
    lemma_add_signed_value(((c.pc + 1) % 0x10000) as u16, b as i8 as int);
}

/// The high register of pair number `p` in PUSH and POP: B, D, H, A for BC,
/// DE, HL, AF.
pub open spec fn stack_pair_high(r: Registers, p: u8) -> u8 {
    if p == 0 {
        r.b
    } else if p == 1 {
        r.d
    } else if p == 2 {
        r.h
    } else {
        r.a
    }
}

/// The low register of pair number `p` in PUSH and POP: C, E, L, F.
pub open spec fn stack_pair_low(r: Registers, p: u8) -> u8 {
    if p == 0 {
        r.c
    } else if p == 1 {
        r.e
    } else if p == 2 {
        r.l
    } else {
        r.f.byte()
    }
}

/// The address one below `a`, wrapping.
pub open spec fn below(a: u16) -> u16 {
    ((a + 0xFFFF) % 0x10000) as u16
}

/// PUSH rr (`11pp0101`) stores the high register of pair number p (BC, DE,
/// HL, AF) at SP - 1 and the low one at SP - 2 and lowers SP by two,
/// changing nothing else, when those bytes are mapped and accessible.
#[verifier::rlimit(60)]
#[verifier::spinoff_prover]
pub proof fn lemma_push_opcode(c: Cpu, m: Seq<u8>, p: u8)
    requires
        p < 4,
        m.len() == 0x10000,
        mapped(below(c.registers.sp)),
        mapped(below(below(c.registers.sp))),
        accessible(below(c.registers.sp)),
        accessible(below(below(c.registers.sp))),
    ensures
        ({
            let sp = c.registers.sp;
            let (c2, m2) = step(c, m, (0xC5 + 16 * p) as u8);
            &&& m2[below(sp) as int] == stack_pair_high(c.registers, p)
            &&& m2[below(below(sp)) as int] == stack_pair_low(c.registers, p)
            &&& forall|i: int|
                0 <= i < 0x10000 && i != below(sp) && i != below(below(sp)) ==> m2[i] == m[i]
            &&& c2.registers == (Registers { sp: below(below(sp)), ..c.registers })
            &&& c2.pc == c.pc
        }),
{
    let op = (0xC5 + 16 * p) as u8;
    lemma_fields(op, 3, (2 * p) as u8, 5);
    let r = c.registers;
    let hi = stack_pair_high(r, p);
    let lo = stack_pair_low(r, p);
    crate::bits::lemma_word_roundtrip(0, hi, lo);
    assert(r.spec_get_rp(&spec_rp2(p)) == word(hi, lo)) by {
        assert(p == 0 || p == 1 || p == 2 || p == 3);
    }
    assert(step(c, m, op) == push(c, m, word(hi, lo)));
}

/// POP rr (`11pp0001`) loads pair number p (BC, DE, HL, AF) from the stack,
/// the low register from SP and the high one from SP + 1 (F keeping only
/// its upper nibble), and raises SP by two; the other pairs and memory are
/// unchanged.
pub proof fn lemma_pop_opcode(c: Cpu, m: Seq<u8>, p: u8)
    requires
        p < 4,
    ensures
        ({
            let sp = c.registers.sp;
            let (c2, m2) = step(c, m, (0xC1 + 16 * p) as u8);
            let hi = m[((sp + 1) % 0x10000) as int];
            let lo = m[sp as int];
            &&& stack_pair_high(c2.registers, p) == hi
            &&& stack_pair_low(c2.registers, p) == if p == 3 {
                (lo / 16 * 16) as u8
            } else {
                lo
            }
            &&& forall|q: u8|
                q < 4 && q != p ==> stack_pair_high(#[trigger] c2.registers, q) == stack_pair_high(
                    c.registers,
                    q,
                ) && stack_pair_low(c2.registers, q) == stack_pair_low(c.registers, q)
            &&& c2.registers.sp == (sp + 2) % 0x10000
            &&& c2.pc == c.pc
            &&& m2 == m
        }),
{
    lemma_fields((0xC1 + 16 * p) as u8, 3, (2 * p) as u8, 1);
    let sp = c.registers.sp;
    let v = crate::cpu::semantics::pop_value(c, m);
    crate::bits::lemma_word_roundtrip(v, m[((sp + 1) % 0x10000) as int], m[sp as int]);
    crate::registers::FlagsRegister::lemma_byte_of_from_byte(m[sp as int]);
}

/// The value of 16-bit register number `p` in loads, increments and
/// additions: BC, DE, HL, SP.
pub open spec fn pair_number(r: Registers, p: u8) -> int {
    if p == 0 {
        r.b * 256 + r.c
    } else if p == 1 {
        r.d * 256 + r.e
    } else if p == 2 {
        r.h * 256 + r.l
    } else {
        r.sp as int
    }
}

/// Whether two register files agree on A, the flags and every 16-bit
/// register except number `p`.
pub open spec fn pairs_agree_except(r1: Registers, r2: Registers, p: u8) -> bool {
    &&& forall|q: u8| q < 4 && q != p ==> pair_number(r1, q) == #[trigger] pair_number(r2, q)
    &&& r1.a == r2.a
}

/// The pair registers as numbers.
proof fn lemma_pair_number_bounds(r: Registers, p: u8)
    ensures
        0 <= pair_number(r, p) < 0x10000,
{
}

/// LD rr, nn (`00pp0001`) loads the little-endian word after the opcode into
/// 16-bit register number p (BC, DE, HL, SP), touching neither the flags nor
/// the other registers.
#[verifier::rlimit(40)]
#[verifier::spinoff_prover]
pub proof fn lemma_ld_pair_opcode(c: Cpu, m: Seq<u8>, p: u8)
    requires
        p < 4,
        !c.halt_bug,
    ensures
        ({
            let r = c.registers;
            let lo = m[c.pc as int];
            let hi = m[((c.pc + 1) % 0x10000) as int];
            let (c2, m2) = step(c, m, (0x01 + 16 * p) as u8);
            &&& pair_number(c2.registers, p) == hi * 256 + lo
            &&& c2.pc == (c.pc + 2) % 0x10000
            &&& pairs_agree_except(c2.registers, r, p)
            &&& c2.registers.f == r.f
            &&& m2 == m
        }),
{
    let op = (0x01 + 16 * p) as u8;
    lemma_fields(op, 0, (2 * p) as u8, 1);
    let r = c.registers;
    let lo = m[c.pc as int];
    let hi = m[((c.pc + 1) % 0x10000) as int];
    let (c1, nn) = fetch_u16(c, m);
    assert(nn == word(hi, lo));
    crate::bits::lemma_word_parts(hi, lo);
    lemma_pair_rp(c1.registers, p, nn);
    let y = (2 * p) as u8;
    assert(y / 2 == p && y % 2 == 0);
    assert(step(c, m, op) == step_x0(c, m, y, 1));
    assert(step_x0(c, m, y, 1) == (c1.with_registers(c1.registers.with_rp(spec_rp(p), nn)), m));
}

/// INC rr (`00pp0011`) and DEC rr (`00pp1011`) add and subtract one modulo
/// 2^16 on 16-bit register number p, touching neither the flags nor the
/// other registers.
pub proof fn lemma_inc_dec_pair_opcodes(c: Cpu, m: Seq<u8>, p: u8)
    requires
        p < 4,
    ensures
        ({
            let r = c.registers;
            let inc = step(c, m, (0x03 + 16 * p) as u8);
            let dec = step(c, m, (0x0B + 16 * p) as u8);
            &&& pair_number(inc.0.registers, p) == (pair_number(r, p) + 1) % 0x10000
            &&& pairs_agree_except(inc.0.registers, r, p)
            &&& inc.0.registers.f == r.f
            &&& pair_number(dec.0.registers, p) == (pair_number(r, p) + 0xFFFF) % 0x10000
            &&& pairs_agree_except(dec.0.registers, r, p)
            &&& dec.0.registers.f == r.f
            &&& inc.0.pc == c.pc && dec.0.pc == c.pc
            &&& inc.1 == m && dec.1 == m
        }),
{
    lemma_fields((0x03 + 16 * p) as u8, 0, (2 * p) as u8, 3);
    lemma_fields((0x0B + 16 * p) as u8, 0, (2 * p + 1) as u8, 3);
    let r = c.registers;
    lemma_pair_rp(r, p, ((pair_number(r, p) + 1) % 0x10000) as u16);
    lemma_pair_rp(r, p, ((pair_number(r, p) + 0xFFFF) % 0x10000) as u16);
}

/// ADD HL, rr (`00pp1001`): HL becomes HL plus 16-bit register number p
/// modulo 2^16, C the carry out of bit 15, H the carry out of bit 11, N
/// cleared, Z kept.
pub proof fn lemma_add_hl_opcode(c: Cpu, m: Seq<u8>, p: u8)
    requires
        p < 4,
    ensures
        ({
            let r = c.registers;
            let hl = pair_number(r, 2);
            let v = pair_number(r, p);
            let (c2, m2) = step(c, m, (0x09 + 16 * p) as u8);
            &&& pair_number(c2.registers, 2) == (hl + v) % 0x10000
            &&& c2.registers.f.carry == (hl + v > 0xFFFF)
            &&& c2.registers.f.half_carry == (hl % 4096 + v % 4096 > 0xFFF)
            &&& !c2.registers.f.subtract
            &&& c2.registers.f.zero == r.f.zero
            &&& pairs_agree_except(c2.registers, r, 2)
            &&& c2.pc == c.pc
            &&& m2 == m
        }),
{
    lemma_fields((0x09 + 16 * p) as u8, 0, (2 * p + 1) as u8, 1);
    let r = c.registers;
    let hl = pair_number(r, 2);
    let v = pair_number(r, p);
    lemma_pair_rp(r, p, 0);
    lemma_pair_rp(r, 2, 0);
    let r1 = Registers {
        f: FlagsRegister {
            subtract: false,
            carry: hl + v > 0xFFFF,
            half_carry: hl % 4096 + v % 4096 > 0xFFF,
            ..r.f
        },
        ..r
    };
    lemma_pair_rp(r1, 2, ((hl + v) % 0x10000) as u16);
}

/// 16-bit register number `p` is the pair that `spec_rp(p)` names, and
/// writing it sets that number and leaves the others.
proof fn lemma_pair_rp(r: Registers, p: u8, nn: u16)
    requires
        p < 4,
    ensures
        r.spec_get_rp(&spec_rp(p)) == pair_number(r, p),
        pair_number(r.with_rp(spec_rp(p), nn), p) == nn,
        pairs_agree_except(r.with_rp(spec_rp(p), nn), r, p),
        r.with_rp(spec_rp(p), nn).f == r.f,
{
    crate::bits::lemma_word_roundtrip(nn, 0, 0);
    crate::bits::lemma_word_parts(r.b, r.c);
    crate::bits::lemma_word_parts(r.d, r.e);
    crate::bits::lemma_word_parts(r.h, r.l);
    assert(high_byte(nn) * 256 + low_byte(nn) == nn);
}

/// Whether two register files agree on SP and on every 8-bit register
/// except operand number `k` (the flags may differ).
pub open spec fn data_agree_except(r1: Registers, r2: Registers, k: u8) -> bool {
    &&& k != 0 ==> r1.b == r2.b
    &&& k != 1 ==> r1.c == r2.c
    &&& k != 2 ==> r1.d == r2.d
    &&& k != 3 ==> r1.e == r2.e
    &&& k != 4 ==> r1.h == r2.h
    &&& k != 5 ==> r1.l == r2.l
    &&& k != 7 ==> r1.a == r2.a
    &&& r1.sp == r2.sp
}

/// INC r (`00yyy100`) and DEC r (`00yyy101`), y not 6: the register named
/// by y goes up or down by one modulo 256; Z from the result, N set by DEC
/// only, H on a carry out of (INC) or borrow into (DEC) the low nibble; C
/// and the other registers unchanged.
pub proof fn lemma_inc_dec_register_opcodes(c: Cpu, m: Seq<u8>, y: u8)
    requires
        y < 8,
        y != 6,
    ensures
        ({
            let r = c.registers;
            let v = reg_number(r, y);
            let (ci, mi) = step(c, m, (0x04 + 8 * y) as u8);
            let (cd, md) = step(c, m, (0x05 + 8 * y) as u8);
            let up = (v + 1) % 256;
            let down = (v + 255) % 256;
            &&& reg_number(ci.registers, y) == up
            &&& ci.registers.f.zero == (up == 0)
            &&& !ci.registers.f.subtract
            &&& ci.registers.f.half_carry == (v % 16 == 15)
            &&& ci.registers.f.carry == r.f.carry
            &&& data_agree_except(ci.registers, r, y)
            &&& reg_number(cd.registers, y) == down
            &&& cd.registers.f.zero == (down == 0)
            &&& cd.registers.f.subtract
            &&& cd.registers.f.half_carry == (v % 16 == 0)
            &&& cd.registers.f.carry == r.f.carry
            &&& data_agree_except(cd.registers, r, y)
            &&& ci.pc == c.pc && cd.pc == c.pc
            &&& mi == m && md == m
        }),
{
    lemma_fields((0x04 + 8 * y) as u8, 0, y, 4);
    lemma_fields((0x05 + 8 * y) as u8, 0, y, 5);
    let r = c.registers;
    let v = reg_number(r, y);
    lemma_register_number(r, y);
    let fi = FlagsRegister {
        subtract: false,
        zero: (v + 1) % 256 == 0,
        half_carry: v % 16 == 15,
        ..r.f
    };
    let fd = FlagsRegister {
        subtract: true,
        zero: (v + 255) % 256 == 0,
        half_carry: v % 16 == 0,
        ..r.f
    };
    lemma_set_register_number(r.with_flags(fi), y, ((v + 1) % 256) as u8);
    lemma_set_register_number(r.with_flags(fd), y, ((v + 255) % 256) as u8);
}

/// LD r, n (`00yyy110`, y not 6): the register named by y takes the byte
/// after the opcode; the flags and the other registers are unchanged.
pub proof fn lemma_ld_register_immediate_opcode(c: Cpu, m: Seq<u8>, y: u8)
    requires
        y < 8,
        y != 6,
        !c.halt_bug,
    ensures
        ({
            let (c2, m2) = step(c, m, (0x06 + 8 * y) as u8);
            &&& reg_number(c2.registers, y) == m[c.pc as int]
            &&& agree_except(c2.registers, c.registers, y)
            &&& c2.pc == (c.pc + 1) % 0x10000
            &&& m2 == m
        }),
{
    lemma_fields((0x06 + 8 * y) as u8, 0, y, 6);
    lemma_set_register_number(c.registers, y, m[c.pc as int]);
}

/// The accumulator row (`00yyy111`) besides DAA: RLCA, RRCA, RLA, RRA
/// rotate A (through the carry for RLA and RRA) with the bit shifted out
/// going to C and Z, N, H cleared; CPL complements A and sets N and H; SCF
/// sets C; CCF complements C; the last two clear N and H.
pub proof fn lemma_accumulator_row(c: Cpu, m: Seq<u8>)
    ensures
        ({
            let r = c.registers;
            let a = r.a as int;
            let cin: int = if r.f.carry {
                1
            } else {
                0
            };
            let rlca = step(c, m, 0x07).0.registers;
            let rrca = step(c, m, 0x0F).0.registers;
            let rla = step(c, m, 0x17).0.registers;
            let rra = step(c, m, 0x1F).0.registers;
            let cpl = step(c, m, 0x2F).0.registers;
            let scf = step(c, m, 0x37).0.registers;
            let ccf = step(c, m, 0x3F).0.registers;
            &&& rlca.a == (a * 2) % 256 + a / 128
            &&& rlca.f == (FlagsRegister { zero: false, subtract: false, half_carry: false, carry: a >= 128 })
            &&& rrca.a == (a % 2) * 128 + a / 2
            &&& rrca.f == (FlagsRegister { zero: false, subtract: false, half_carry: false, carry: a % 2 == 1 })
            &&& rla.a == (a * 2) % 256 + cin
            &&& rla.f == (FlagsRegister { zero: false, subtract: false, half_carry: false, carry: a >= 128 })
            &&& rra.a == cin * 128 + a / 2
            &&& rra.f == (FlagsRegister { zero: false, subtract: false, half_carry: false, carry: a % 2 == 1 })
            &&& cpl.a == 255 - a
            &&& cpl.f == (FlagsRegister { subtract: true, half_carry: true, ..r.f })
            &&& scf.a == a
            &&& scf.f == (FlagsRegister { carry: true, subtract: false, half_carry: false, ..r.f })
            &&& ccf.a == a
            &&& ccf.f == (FlagsRegister { carry: !r.f.carry, subtract: false, half_carry: false, ..r.f })
        }),
{
    lemma_fields(0x07, 0, 0, 7);
    lemma_fields(0x0F, 0, 1, 7);
    lemma_fields(0x17, 0, 2, 7);
    lemma_fields(0x1F, 0, 3, 7);
    lemma_fields(0x2F, 0, 5, 7);
    lemma_fields(0x37, 0, 6, 7);
    lemma_fields(0x3F, 0, 7, 7);
}

/// RST y (`11yyy111`) pushes the address of the next instruction, high byte
/// at SP - 1 and low byte at SP - 2, and jumps to 8 y.
#[verifier::rlimit(40)]
#[verifier::spinoff_prover]
pub proof fn lemma_rst_opcode(c: Cpu, m: Seq<u8>, y: u8)
    requires
        y < 8,
        m.len() == 0x10000,
        mapped(below(c.registers.sp)),
        mapped(below(below(c.registers.sp))),
        accessible(below(c.registers.sp)),
        accessible(below(below(c.registers.sp))),
    ensures
        ({
            let sp = c.registers.sp;
            let (c2, m2) = step(c, m, (0xC7 + 8 * y) as u8);
            &&& c2.pc == 8 * y
            &&& m2[below(sp) as int] * 256 + m2[below(below(sp)) as int] == c.pc
            &&& c2.registers.sp == below(below(sp))
        }),
{
    let op = (0xC7 + 8 * y) as u8;
    lemma_fields(op, 3, y, 7);
    crate::bits::lemma_word_roundtrip(c.pc, 0, 0);
    assert(high_byte(c.pc) * 256 + low_byte(c.pc) == c.pc);
    assert(step(c, m, op) == step_x3(c, m, y, 7));
    let (c1, m1) = push(c, m, c.pc);
    assert(m1[below(c.registers.sp) as int] == high_byte(c.pc));
    assert(m1[below(below(c.registers.sp)) as int] == low_byte(c.pc));
    assert(step_x3(c, m, y, 7) == (c1.with_pc((y * 8) as u16), m1));
}

/// JP nn (0xC3) jumps to the little-endian word after the opcode, and JP
/// (HL) (0xE9) to HL; neither touches registers or memory.
pub proof fn lemma_jump_opcodes(c: Cpu, m: Seq<u8>)
    requires
        !c.halt_bug,
    ensures
        ({
            let r = c.registers;
            let nn = m[((c.pc + 1) % 0x10000) as int] * 256 + m[c.pc as int];
            let (cj, mj) = step(c, m, 0xC3);
            let (ch, mh) = step(c, m, 0xE9);
            &&& cj.pc == nn && mj == m && cj.registers == r
            &&& ch.pc == r.h * 256 + r.l && mh == m && ch.registers == r
        }),
{
    lemma_fields(0xC3, 3, 0, 3);
    lemma_fields(0xE9, 3, 5, 1);
    crate::bits::lemma_word_parts(m[((c.pc + 1) % 0x10000) as int], m[c.pc as int]);
    crate::bits::lemma_word_parts(c.registers.h, c.registers.l);
    assert(step(c, m, 0xC3) == step_x3(c, m, 0, 3));
    assert(step(c, m, 0xE9) == step_x3(c, m, 5, 1));
}

/// CALL nn (0xCD) pushes the address following the word after the opcode
/// (high byte at SP - 1, low byte at SP - 2) and jumps to that word.
#[verifier::rlimit(40)]
#[verifier::spinoff_prover]
pub proof fn lemma_call_opcode(c: Cpu, m: Seq<u8>)
    requires
        !c.halt_bug,
        m.len() == 0x10000,
        mapped(below(c.registers.sp)),
        mapped(below(below(c.registers.sp))),
        accessible(below(c.registers.sp)),
        accessible(below(below(c.registers.sp))),
    ensures
        ({
            let sp = c.registers.sp;
            let nn = m[((c.pc + 1) % 0x10000) as int] * 256 + m[c.pc as int];
            let (c2, m2) = step(c, m, 0xCD);
            &&& c2.pc == nn
            &&& m2[below(sp) as int] * 256 + m2[below(below(sp)) as int] == (c.pc + 2) % 0x10000
            &&& c2.registers.sp == below(below(sp))
        }),
{
    lemma_fields(0xCD, 3, 1, 5);
    crate::bits::lemma_word_parts(m[((c.pc + 1) % 0x10000) as int], m[c.pc as int]);
    let (c1, nn) = fetch_u16(c, m);
    let ret = c1.pc;
    assert(ret == (c.pc + 2) % 0x10000);
    crate::bits::lemma_word_roundtrip(ret, 0, 0);
    assert(high_byte(ret) * 256 + low_byte(ret) == ret);
    assert(step(c, m, 0xCD) == step_x3(c, m, 1, 5));
    let (c3, m3) = push(c1, m, ret);
    assert(m3[below(c.registers.sp) as int] == high_byte(ret));
    assert(m3[below(below(c.registers.sp)) as int] == low_byte(ret));
    assert(step_x3(c, m, 1, 5) == (c3.with_pc(nn), m3));
}

/// RET (0xC9) jumps to the word on top of the stack (low byte at SP) and
/// raises SP by two, leaving memory alone.
pub proof fn lemma_return_opcode(c: Cpu, m: Seq<u8>)
    ensures
        ({
            let sp = c.registers.sp;
            let (c2, m2) = step(c, m, 0xC9);
            &&& c2.pc == m[((sp + 1) % 0x10000) as int] * 256 + m[sp as int]
            &&& c2.registers.sp == (sp + 2) % 0x10000
            &&& m2 == m
        }),
{
    lemma_fields(0xC9, 3, 1, 1);
    let sp = c.registers.sp;
    crate::bits::lemma_word_parts(m[((sp + 1) % 0x10000) as int], m[sp as int]);
    assert(step(c, m, 0xC9) == step_x3(c, m, 1, 1));
}

/// The result of rotate/shift number `y` of the CB table (0 to 7: RLC, RRC,
/// RL, RR, SLA, SRA, SWAP, SRL) on the byte `v` with carry flag `carry`.
pub open spec fn rot_number_value(y: u8, v: u8, carry: bool) -> int {
    let cin: int = if carry {
        1
    } else {
        0
    };
    if y == 0 {
        (v * 2) % 256 + v / 128
    } else if y == 1 {
        (v % 2) * 128 + v / 2
    } else if y == 2 {
        (v * 2) % 256 + cin
    } else if y == 3 {
        cin * 128 + v / 2
    } else if y == 4 {
        (v * 2) % 256
    } else if y == 5 {
        (v / 128) * 128 + v / 2
    } else if y == 6 {
        (v % 16) * 16 + v / 16
    } else {
        (v / 2) as int
    }
}

/// The carry flag after rotate/shift number `y`: bit 7 of `v` for the left
/// shifts, bit 0 for the right ones, cleared by SWAP.
pub open spec fn rot_number_carry(y: u8, v: u8) -> bool {
    if y == 0 || y == 2 || y == 4 {
        v >= 128
    } else if y == 6 {
        false
    } else {
        v % 2 == 1
    }
}

/// Storing a shift or rotate result into a register operand.
proof fn lemma_shifted_register(c: Cpu, m: Seq<u8>, z: u8, res: u8, carry: bool)
    requires
        z < 8,
        z != 6,
    ensures
        ({
            let (c2, m2) = shifted(c, m, spec_r(z), res, carry);
            &&& reg_number(c2.registers, z) == res
            &&& c2.registers.f == (FlagsRegister {
                zero: res == 0,
                subtract: false,
                half_carry: false,
                carry,
            })
            &&& data_agree_except(c2.registers, c.registers, z)
            &&& c2.pc == c.pc
            &&& m2 == m
        }),
{
    lemma_register_number(c.registers, z);
    lemma_set_register_number(c.registers, z, res);
}

/// A CB rotate or shift (`CB 00yyyzzz`, z not 6) on the register named by
/// z: the result and the carry as `rot_number_value` and
/// `rot_number_carry` say, Z from the result, N and H cleared, the other
/// registers and memory unchanged, and the two bytes consumed.
#[verifier::rlimit(60)]
#[verifier::spinoff_prover]
pub proof fn lemma_cb_rotate_opcodes(c: Cpu, m: Seq<u8>)
    requires
        !c.halt_bug,
        m[c.pc as int] < 64,
        m[c.pc as int] % 8 != 6,
    ensures
        ({
            let n = m[c.pc as int];
            let y = n / 8;
            let z = n % 8;
            let r = c.registers;
            let v = reg_number(r, z);
            let res = rot_number_value(y, v, r.f.carry);
            let (c2, m2) = step(c, m, 0xCB);
            &&& reg_number(c2.registers, z) == res
            &&& c2.registers.f == (FlagsRegister {
                zero: res == 0,
                subtract: false,
                half_carry: false,
                carry: rot_number_carry(y, v),
            })
            &&& data_agree_except(c2.registers, r, z)
            &&& c2.pc == (c.pc + 1) % 0x10000
            &&& m2 == m
        }),
{
    let n = m[c.pc as int];
    let y = n / 8;
    let z = n % 8;
    let (c1, n1) = fetch(c, m);
    lemma_fields(n, 0, y, z);
    lemma_register_number(c1.registers, z);
    let v = reg_number(c1.registers, z);
    let cr = c1.registers.f.carry;
    let reg = spec_r(z);
    assert(step(c, m, 0xCB) == rot_table(c1, m, spec_rot(y, z)));
    if y == 0 {
        lemma_shifted_register(c1, m, z, shl_in(v, v >= 128), v >= 128);
    } else if y == 1 {
        lemma_shifted_register(c1, m, z, shr_in(v, v % 2 == 1), v % 2 == 1);
    } else if y == 2 {
        lemma_shifted_register(c1, m, z, shl_in(v, cr), v >= 128);
    } else if y == 3 {
        lemma_shifted_register(c1, m, z, shr_in(v, cr), v % 2 == 1);
    } else if y == 4 {
        lemma_shifted_register(c1, m, z, shl_in(v, false), v >= 128);
    } else if y == 5 {
        lemma_shifted_register(c1, m, z, shr_in(v, v >= 128), v % 2 == 1);
    } else if y == 6 {
        lemma_shifted_register(c1, m, z, ((v % 16) * 16 + v / 16) as u8, false);
    } else {
        lemma_shifted_register(c1, m, z, shr_in(v, false), v % 2 == 1);
    }
}

/// BIT, RES and SET (`CB xxyyyzzz`, x = 1, 2, 3, z not 6) on the register
/// named by z: BIT sets Z exactly when bit y is clear, sets H, clears N and
/// keeps C; RES clears bit y and SET sets it, keeping the flags; the other
/// registers and memory are unchanged, and the two bytes consumed.
#[verifier::rlimit(60)]
#[verifier::spinoff_prover]
pub proof fn lemma_cb_bit_opcodes(c: Cpu, m: Seq<u8>)
    requires
        !c.halt_bug,
        m[c.pc as int] >= 64,
        m[c.pc as int] % 8 != 6,
    ensures
        ({
            let n = m[c.pc as int];
            let x = n / 64;
            let y = ((n / 8) % 8) as u8;
            let z = n % 8;
            let r = c.registers;
            let v = reg_number(r, z);
            let (c2, m2) = step(c, m, 0xCB);
            &&& x == 1 ==> c2.registers.f == (FlagsRegister {
                zero: (v >> y) & 1 == 0,
                half_carry: true,
                subtract: false,
                ..r.f
            }) && agree_except(c2.registers.with_flags(r.f), r, 8)
            &&& x == 2 ==> reg_number(c2.registers, z) == v & !(1u8 << y) && agree_except(
                c2.registers,
                r,
                z,
            )
            &&& x == 3 ==> reg_number(c2.registers, z) == v | (1u8 << y) && agree_except(
                c2.registers,
                r,
                z,
            )
            &&& c2.pc == (c.pc + 1) % 0x10000
            &&& m2 == m
        }),
{
    let n = m[c.pc as int];
    let x = n / 64;
    let y = ((n / 8) % 8) as u8;
    let z = n % 8;
    let (c1, n1) = fetch(c, m);
    lemma_fields(n, x, y, z);
    lemma_register_number(c1.registers, z);
    let v = reg_number(c1.registers, z);
    if x == 2 {
        lemma_set_register_number(c1.registers, z, v & !(1u8 << y));
    } else if x == 3 {
        lemma_set_register_number(c1.registers, z, v | (1u8 << y));
    }
}

/// Operand number 6 is the byte at HL: LD r, (HL) (`01yyy110`) loads it
/// into the register named by y; LD (HL), r (`01110zzz`) stores the register
/// named by z there; ALU A, (HL) (`10yyy110`) applies operation number y to
/// it; INC (HL) and DEC (HL) (0x34, 0x35) change it by one and leave the
/// registers, flags included, as they were.
#[verifier::rlimit(40)]
#[verifier::spinoff_prover]
pub proof fn lemma_hl_operand_opcodes(c: Cpu, m: Seq<u8>, y: u8)
    requires
        y < 8,
        y != 6,
        m.len() == 0x10000,
        mapped(c.registers.spec_hl()),
        accessible(c.registers.spec_hl()),
    ensures
        ({
            let r = c.registers;
            let hl = r.h * 256 + r.l;
            let v = m[hl];
            let ld = step(c, m, (0x46 + 8 * y) as u8);
            let st = step(c, m, (0x70 + y) as u8);
            let alu = step(c, m, (0x86 + 8 * y) as u8);
            let inc = step(c, m, 0x34);
            let dec = step(c, m, 0x35);
            &&& reg_number(ld.0.registers, y) == v && agree_except(ld.0.registers, r, y)
            &&& ld.1 == m
            &&& st.1[hl] == reg_number(r, y) && st.0 == c
            &&& forall|i: int| 0 <= i < 0x10000 && i != hl ==> st.1[i] == m[i]
            &&& alu_number_ok(r, alu.0.registers, y, v) && alu.1 == m
            &&& inc.1[hl] == (v + 1) % 256 && inc.0 == c
            &&& dec.1[hl] == (v + 255) % 256 && dec.0 == c
            &&& forall|i: int| 0 <= i < 0x10000 && i != hl ==> inc.1[i] == m[i] && dec.1[i] == m[i]
        }),
{
    let r = c.registers;
    crate::bits::lemma_word_parts(r.h, r.l);
    lemma_fields((0x46 + 8 * y) as u8, 1, y, 6);
    lemma_fields((0x70 + y) as u8, 1, 6, y);
    lemma_fields((0x86 + 8 * y) as u8, 2, y, 6);
    lemma_fields(0x34, 0, 6, 4);
    lemma_fields(0x35, 0, 6, 5);
    lemma_register_number(r, y);
    lemma_set_register_number(r, y, m[r.spec_hl() as int]);
    lemma_alu_operations(r, m[r.spec_hl() as int]);
    assert(step(c, m, (0x86 + 8 * y) as u8) == (alu_op_r(c, m, spec_alu(y), spec_r(6)), m));
}

/// The loads through memory: LD (BC), A / LD A, (BC) (0x02, 0x0A), the same
/// through DE (0x12, 0x1A), through HL with HL incremented afterwards (0x22,
/// 0x2A) or decremented (0x32, 0x3A); LDH (n), A / LDH A, (n) (0xE0, 0xF0)
/// at 0xFF00 + n; LD (C), A / LD A, (C) (0xE2, 0xF2) at 0xFF00 + C.
#[verifier::rlimit(60)]
#[verifier::spinoff_prover]
pub proof fn lemma_indirect_load_opcodes(c: Cpu, m: Seq<u8>)
    requires
        !c.halt_bug,
    ensures
        ({
            let r = c.registers;
            let bc = (r.b * 256 + r.c) as int;
            let de = (r.d * 256 + r.e) as int;
            let hl = (r.h * 256 + r.l) as int;
            let n = m[c.pc as int];
            &&& step(c, m, 0x02).1 == written(m, bc as u16, r.a)
            &&& step(c, m, 0x0A).0.registers.a == m[bc]
            &&& step(c, m, 0x12).1 == written(m, de as u16, r.a)
            &&& step(c, m, 0x1A).0.registers.a == m[de]
            &&& step(c, m, 0x22).1 == written(m, hl as u16, r.a)
            &&& pair_number(step(c, m, 0x22).0.registers, 2) == (hl + 1) % 0x10000
            &&& step(c, m, 0x2A).0.registers.a == m[hl]
            &&& pair_number(step(c, m, 0x2A).0.registers, 2) == (hl + 1) % 0x10000
            &&& step(c, m, 0x32).1 == written(m, hl as u16, r.a)
            &&& pair_number(step(c, m, 0x32).0.registers, 2) == (hl + 0xFFFF) % 0x10000
            &&& step(c, m, 0x3A).0.registers.a == m[hl]
            &&& pair_number(step(c, m, 0x3A).0.registers, 2) == (hl + 0xFFFF) % 0x10000
            &&& step(c, m, 0xE0).1 == written(m, (0xFF00 + n) as u16, r.a)
            &&& step(c, m, 0xF0).0.registers.a == m[0xFF00 + n]
            &&& step(c, m, 0xE2).1 == written(m, (0xFF00 + r.c) as u16, r.a)
            &&& step(c, m, 0xF2).0.registers.a == m[0xFF00 + r.c]
        }),
{
    let r = c.registers;
    crate::bits::lemma_word_parts(r.b, r.c);
    crate::bits::lemma_word_parts(r.d, r.e);
    crate::bits::lemma_word_parts(r.h, r.l);
    lemma_fields(0x02, 0, 0, 2);
    lemma_fields(0x0A, 0, 1, 2);
    lemma_fields(0x12, 0, 2, 2);
    lemma_fields(0x1A, 0, 3, 2);
    lemma_fields(0x22, 0, 4, 2);
    lemma_fields(0x2A, 0, 5, 2);
    lemma_fields(0x32, 0, 6, 2);
    lemma_fields(0x3A, 0, 7, 2);
    lemma_fields(0xE0, 3, 4, 0);
    lemma_fields(0xF0, 3, 6, 0);
    lemma_fields(0xE2, 3, 4, 2);
    lemma_fields(0xF2, 3, 6, 2);
    let hl = r.spec_hl();
    lemma_pair_rp(r, 2, ((hl + 1) % 0x10000) as u16);
    lemma_pair_rp(r, 2, ((hl + 0xFFFF) % 0x10000) as u16);
}

/// DI (0xF3) and EI (0xFB) clear and set IME and change nothing else; HALT
/// (0x76) halts when IME is set or no interrupt is pending, and otherwise
/// arms the HALT bug; NOP (0x00) changes nothing.
pub proof fn lemma_control_opcodes(c: Cpu, m: Seq<u8>)
    ensures
        step(c, m, 0xF3) == (Cpu { ime: false, ..c }, m),
        step(c, m, 0xFB) == (Cpu { ime: true, ..c }, m),
        step(c, m, 0x00) == (c, m),
        step(c, m, 0x76).1 == m,
        step(c, m, 0x76).0 == if c.ime || m[0xFFFF] & m[0xFF0F] == 0 {
            Cpu { halted: true, ..c }
        } else {
            Cpu { halt_bug: true, ..c }
        },
{
    lemma_fields(0xF3, 3, 6, 3);
    lemma_fields(0xFB, 3, 7, 3);
    lemma_fields(0x00, 0, 0, 0);
    lemma_fields(0x76, 1, 6, 6);
}

/// LD (nn), A (0xEA) and LD A, (nn) (0xFA) store and load A at the
/// little-endian word after the opcode; LD (nn), SP (0x08) stores SP there,
/// low byte first; LD SP, HL (0xF9) copies HL into SP; RETI (0xD9) returns
/// like RET and sets IME.
#[verifier::rlimit(60)]
#[verifier::spinoff_prover]
pub proof fn lemma_absolute_opcodes(c: Cpu, m: Seq<u8>)
    requires
        !c.halt_bug,
    ensures
        ({
            let r = c.registers;
            let sp = r.sp;
            let nn = m[((c.pc + 1) % 0x10000) as int] * 256 + m[c.pc as int];
            &&& step(c, m, 0xEA).1 == written(m, nn as u16, r.a)
            &&& step(c, m, 0xFA).0.registers.a == m[nn]
            &&& step(c, m, 0x08).1 == written(
                written(m, nn as u16, (sp % 256) as u8),
                (nn + 1) as u16,
                (sp / 256) as u8,
            )
            &&& step(c, m, 0xF9).0.registers.sp == r.h * 256 + r.l
            &&& step(c, m, 0xD9).0.ime
            &&& step(c, m, 0xD9).0.pc == m[((sp + 1) % 0x10000) as int] * 256 + m[sp as int]
            &&& step(c, m, 0xD9).0.registers.sp == (sp + 2) % 0x10000
        }),
{
    lemma_fields(0xEA, 3, 5, 2);
    lemma_fields(0xFA, 3, 7, 2);
    lemma_fields(0x08, 0, 1, 0);
    lemma_fields(0xF9, 3, 7, 1);
    lemma_fields(0xD9, 3, 3, 1);
    crate::bits::lemma_word_parts(m[((c.pc + 1) % 0x10000) as int], m[c.pc as int]);
    crate::bits::lemma_word_parts(c.registers.h, c.registers.l);
    let sp = c.registers.sp;
    crate::bits::lemma_word_parts(m[((sp + 1) % 0x10000) as int], m[sp as int]);
}

/// ADD A, r (`10000zzz`) followed by DAA (0x27) adds two BCD bytes in
/// decimal; SUB r (`10010zzz`) followed by DAA subtracts them; C reports
/// the decimal carry or borrow.
#[verifier::rlimit(40)]
#[verifier::spinoff_prover]
pub proof fn lemma_daa_opcode(c: Cpu, m: Seq<u8>, z: u8)
    requires
        z < 8,
        z != 6,
        is_bcd(c.registers.a),
        is_bcd(reg_number(c.registers, z)),
    ensures
        ({
            let a = bcd_value(c.registers.a);
            let n = bcd_value(reg_number(c.registers, z));
            let (c1, m1) = step(c, m, (0x80 + z) as u8);
            let d1 = step(c1, m1, 0x27).0.registers;
            let (c2, m2) = step(c, m, (0x90 + z) as u8);
            let d2 = step(c2, m2, 0x27).0.registers;
            &&& is_bcd(d1.a) && bcd_value(d1.a) == (a + n) % 100 && d1.f.carry == (a + n >= 100)
            &&& is_bcd(d2.a) && bcd_value(d2.a) == (a - n + 100) % 100 && d2.f.carry == (a < n)
        }),
{
    let r = c.registers;
    let v = reg_number(r, z);
    lemma_fields((0x80 + z) as u8, 2, 0, z);
    lemma_fields((0x90 + z) as u8, 2, 2, z);
    lemma_fields(0x27, 0, 4, 7);
    lemma_register_number(r, z);
    let (c1, m1) = step(c, m, (0x80 + z) as u8);
    assert(c1.registers == add_result(r, v));
    lemma_daa_after_add(r, v);
    let (c2, m2) = step(c, m, (0x90 + z) as u8);
    assert(c2.registers == sub_result(r, v));
    lemma_daa_after_sub(r, v);
}

/// The fields of the opcode `64 x + 8 y + z`.
proof fn lemma_fields(op: u8, x: u8, y: u8, z: u8)
    requires
        x < 4,
        y < 8,
        z < 8,
        op == 64 * x + 8 * y + z,
    ensures
        op_x(op) == x,
        op_y(op) == y,
        op_z(op) == z,
        op != 0xCB || (x == 3 && y == 1 && z == 3),
{
}

/// Reading the register named by operand number `k`.
proof fn lemma_register_number(r: Registers, k: u8)
    requires
        k < 8,
        k != 6,
    ensures
        r.spec_get_r(&spec_r(k)) == reg_number(r, k),
        in_register_file(spec_r(k)),
        !(spec_r(k) is F),
{
}

/// Writing the register named by operand number `k`.
proof fn lemma_set_register_number(r: Registers, k: u8, v: u8)
    requires
        k < 8,
        k != 6,
    ensures
        reg_number(r.with_r(spec_r(k), v), k) == v,
        agree_except(r.with_r(spec_r(k), v), r, k),
{
}

} // verus!
