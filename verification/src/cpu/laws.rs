//! Properties of the instruction semantics that hold across instructions.

use vstd::prelude::*;
use crate::bits::{shl_in, shr_in, high_byte, low_byte, word};
use crate::cpu::{CBRot, Cpu};
use crate::cpu::semantics::{
    add_result, adc_result, sub_result, sbc_result, xor_result, push, pop_value, pop_cpu, call,
    ret, operand, rotate_left, rotate_right, swap, set_bit, reset_bit, bit, bit_is_set, inc_r, dec_r, fetch,
    halt, with_operand, shifted, ld_nn_sp, cb_step, rot_table, op_x, op_y, op_z,
};
use crate::cpu::helpers::{spec_r, spec_rot};
use crate::memory::{mapped, accessible};
use crate::registers::{Condition, FlagsRegister, Register, Registers};

verus! {

/// Whether storing to an operand and reading it back gives the same byte:
/// true of A to L, and of (HL) when HL points at mapped, accessible memory.
pub open spec fn operand_is_storage(c: Cpu, reg: Register) -> bool {
    !(reg is F) && (reg is HLDirect ==> mapped(c.registers.spec_hl()) && accessible(
        c.registers.spec_hl(),
    ))
}

/// The address one below `a`, wrapping.
pub open spec fn below(a: u16) -> u16 {
    ((a + 0xFFFF) % 0x10000) as u16
}

/// Popping right after a push gives back the word pushed and the CPU as it
/// was, when the two stack bytes are mapped and accessible.
pub proof fn lemma_pop_after_push(c: Cpu, m: Seq<u8>, nn: u16)
    requires
        m.len() == 0x10000,
        mapped(below(c.registers.sp)),
        mapped(below(below(c.registers.sp))),
        accessible(below(c.registers.sp)),
        accessible(below(below(c.registers.sp))),
    ensures
        pop_value(push(c, m, nn).0, push(c, m, nn).1) == nn,
        pop_cpu(push(c, m, nn).0) == c,
{
    crate::bits::lemma_word_roundtrip(nn, 0, 0);
}

/// A call followed by a return comes back to the instruction after the
/// call, with the stack pointer restored.
pub proof fn lemma_ret_after_call(c: Cpu, m: Seq<u8>, nn: u16)
    requires
        m.len() == 0x10000,
        mapped(below(c.registers.sp)),
        mapped(below(below(c.registers.sp))),
        accessible(below(c.registers.sp)),
        accessible(below(below(c.registers.sp))),
    ensures
        ({
            let (c1, m1) = call(c, m, Condition::Always, nn);
            ret(c1, m1, Condition::Always) == c
        }),
{
    lemma_pop_after_push(c, m, c.pc);
}

/// SUB n undoes ADD A, n on the accumulator.
pub proof fn lemma_sub_undoes_add(r: Registers, n: u8)
    ensures
        sub_result(add_result(r, n), n).a == r.a,
{
}

/// ADC and SBC with the carry clear are ADD and SUB.
pub proof fn lemma_carry_clear(r: Registers, n: u8)
    requires
        !r.f.carry,
    ensures
        adc_result(r, n) == add_result(r, n),
        sbc_result(r, n) == sub_result(r, n),
{
}

/// The carry out of ADD A, n is set exactly when the sum wrapped around.
pub proof fn lemma_add_carry_is_wrap(r: Registers, n: u8)
    ensures
        add_result(r, n).f.carry == (add_result(r, n).a < r.a),
{
}

/// XOR A with itself clears A and sets Z.
pub proof fn lemma_xor_self(r: Registers)
    ensures
        xor_result(r, r.a).a == 0,
        xor_result(r, r.a).f.zero,
{
    let a = r.a;
    assert(a ^ a == 0) by (bit_vector);
}

/// Storing to a plain-storage operand and reading it back gives the byte
/// stored, and the operand stays plain storage.
pub proof fn lemma_operand_of_with_operand(c: Cpu, m: Seq<u8>, reg: Register, v: u8)
    requires
        m.len() == 0x10000,
        operand_is_storage(c, reg),
    ensures
        operand(with_operand(c, m, reg, v).0, with_operand(c, m, reg, v).1, reg) == v,
        operand_is_storage(with_operand(c, m, reg, v).0, reg),
        with_operand(c, m, reg, v).1.len() == 0x10000,
{
    if reg is HLDirect {
        crate::memory::lemma_read_after_write(m, c.registers.spec_hl(), v);
    } else {
        crate::registers::lemma_get_r_of_with_r(c.registers, reg, v);
    }
}

/// The same for the store-then-set-flags of the shift and rotate
/// instructions.
pub proof fn lemma_operand_of_shifted(c: Cpu, m: Seq<u8>, reg: Register, v: u8, carry: bool)
    requires
        m.len() == 0x10000,
        operand_is_storage(c, reg),
    ensures
        operand(shifted(c, m, reg, v, carry).0, shifted(c, m, reg, v, carry).1, reg) == v,
        operand_is_storage(shifted(c, m, reg, v, carry).0, reg),
        shifted(c, m, reg, v, carry).1.len() == 0x10000,
{
    lemma_operand_of_with_operand(c, m, reg, v);
}

/// RRC undoes RLC on any operand that is plain storage.
pub proof fn lemma_rrc_undoes_rlc(c: Cpu, m: Seq<u8>, reg: Register)
    requires
        m.len() == 0x10000,
        operand_is_storage(c, reg),
    ensures
        ({
            let (c1, m1) = rotate_left(c, m, reg, false);
            let (c2, m2) = rotate_right(c1, m1, reg, false);
            operand(c2, m2, reg) == operand(c, m, reg)
        }),
{
    let v = operand(c, m, reg);
    let w = shl_in(v, v >= 128);
    lemma_operand_of_shifted(c, m, reg, w, v >= 128);
    let (c1, m1) = rotate_left(c, m, reg, false);
    lemma_operand_of_shifted(c1, m1, reg, shr_in(w, w % 2 == 1), w % 2 == 1);
}

/// RR undoes RL on any operand that is plain storage, and restores the
/// carry flag too.
#[verifier::rlimit(40)]
#[verifier::spinoff_prover]
pub proof fn lemma_rr_undoes_rl(c: Cpu, m: Seq<u8>, reg: Register)
    requires
        m.len() == 0x10000,
        operand_is_storage(c, reg),
    ensures
        ({
            let (c1, m1) = rotate_left(c, m, reg, true);
            let (c2, m2) = rotate_right(c1, m1, reg, true);
            &&& operand(c2, m2, reg) == operand(c, m, reg)
            &&& c2.registers.f.carry == c.registers.f.carry
        }),
{
    let v = operand(c, m, reg);
    let w = shl_in(v, c.registers.f.carry);
    lemma_operand_of_shifted(c, m, reg, w, v >= 128);
    let (c1, m1) = rotate_left(c, m, reg, true);
    lemma_operand_of_shifted(c1, m1, reg, shr_in(w, v >= 128), w % 2 == 1);
}

/// SWAP twice restores any operand that is plain storage.
pub proof fn lemma_swap_twice(c: Cpu, m: Seq<u8>, reg: Register)
    requires
        m.len() == 0x10000,
        operand_is_storage(c, reg),
    ensures
        ({
            let (c1, m1) = swap(c, m, reg);
            let (c2, m2) = swap(c1, m1, reg);
            operand(c2, m2, reg) == operand(c, m, reg)
        }),
{
    let v = operand(c, m, reg);
    let w = ((v % 16) * 16 + v / 16) as u8;
    lemma_operand_of_shifted(c, m, reg, w, false);
    let (c1, m1) = swap(c, m, reg);
    lemma_operand_of_shifted(c1, m1, reg, ((w % 16) * 16 + w / 16) as u8, false);
}

/// After SET y the bit is set, after RES y it is clear, and BIT y reports it
/// through Z; the other seven bits are left alone.
pub proof fn lemma_set_res_bit(c: Cpu, m: Seq<u8>, y: u8, reg: Register)
    requires
        m.len() == 0x10000,
        operand_is_storage(c, reg),
        y < 8,
    ensures
        bit_is_set(operand(set_bit(c, m, y, reg).0, set_bit(c, m, y, reg).1, reg), y),
        !bit_is_set(operand(reset_bit(c, m, y, reg).0, reset_bit(c, m, y, reg).1, reg), y),
        forall|k: u8|
            k < 8 && k != y ==> (bit_is_set(
                #[trigger] operand(set_bit(c, m, y, reg).0, set_bit(c, m, y, reg).1, reg),
                k,
            ) == bit_is_set(operand(c, m, reg), k)),
        forall|k: u8|
            k < 8 && k != y ==> (bit_is_set(
                #[trigger] operand(reset_bit(c, m, y, reg).0, reset_bit(c, m, y, reg).1, reg),
                k,
            ) == bit_is_set(operand(c, m, reg), k)),
        bit(c, m, y, reg).registers.f.zero == !bit_is_set(operand(c, m, reg), y),
{
    let v = operand(c, m, reg);
    let hl = c.registers.spec_hl();
    if reg is HLDirect {
        crate::memory::lemma_read_after_write(m, hl, v | (1u8 << y));
    }
    if reg is HLDirect {
        crate::memory::lemma_read_after_write(m, hl, v & !(1u8 << y));
    }
    let s = v | (1u8 << y);
    let r = v & !(1u8 << y);
    assert(operand(set_bit(c, m, y, reg).0, set_bit(c, m, y, reg).1, reg) == s);
    assert(operand(reset_bit(c, m, y, reg).0, reset_bit(c, m, y, reg).1, reg) == r);
    assert((s >> y) & 1 == 1) by (bit_vector)
        requires
            y < 8,
            s == v | (1u8 << y),
    ;
    assert((r >> y) & 1 == 0) by (bit_vector)
        requires
            y < 8,
            r == v & !(1u8 << y),
    ;
    assert forall|k: u8| k < 8 && k != y implies (s >> k) & 1 == (v >> k) & 1 && (r >> k) & 1 == (v
        >> k) & 1 by {
        assert((s >> k) & 1 == (v >> k) & 1 && (r >> k) & 1 == (v >> k) & 1) by (bit_vector)
            requires
                y < 8,
                k < 8,
                k != y,
                s == v | (1u8 << y),
                r == v & !(1u8 << y),
        ;
    }
    assert(((v >> y) & 1 == 0) == !((v >> y) & 1 == 1)) by (bit_vector);
}

/// DEC undoes INC on the value of any operand that is plain storage.
#[verifier::rlimit(40)]
#[verifier::spinoff_prover]
pub proof fn lemma_dec_undoes_inc(c: Cpu, m: Seq<u8>, reg: Register)
    requires
        m.len() == 0x10000,
        operand_is_storage(c, reg),
    ensures
        ({
            let (c1, m1) = inc_r(c, m, reg);
            let (c2, m2) = dec_r(c1, m1, reg);
            operand(c2, m2, reg) == operand(c, m, reg)
        }),
{
    let v = operand(c, m, reg);
    let w = ((v + 1) % 256) as u8;
    let cf = c.with_flags(
        FlagsRegister { subtract: false, zero: w == 0, half_carry: v % 16 == 15, ..c.registers.f },
    );
    lemma_operand_of_with_operand(cf, m, reg, w);
    let (c1, m1) = inc_r(c, m, reg);
    let cg = c1.with_flags(
        FlagsRegister {
            subtract: true,
            zero: ((w + 255) % 256) as u8 == 0,
            half_carry: w % 16 == 0,
            ..c1.registers.f
        },
    );
    lemma_operand_of_with_operand(cg, m1, reg, ((w + 255) % 256) as u8);
}

/// The HALT bug: when HALT runs with interrupts disabled and one pending,
/// the byte after HALT is fetched twice.
pub proof fn lemma_halt_bug_repeats_byte(c: Cpu, m: Seq<u8>)
    requires
        !c.ime,
        m[0xFFFF] & m[0xFF0F] != 0,
        !c.halt_bug,
        !c.halted,
        m.len() == 0x10000,
    ensures
        ({
            let h = halt(c, m);
            let (c1, b1) = fetch(h, m);
            let (c2, b2) = fetch(c1, m);
            &&& h.halt_bug
            &&& !h.halted
            &&& b1 == b2
            &&& c2.pc == ((c.pc + 1) % 0x10000) as u16
        }),
{
}

/// LD (nn), SP stores SP little-endian: the low byte at nn, the high byte at
/// nn + 1.
pub proof fn lemma_ld_nn_sp_stores_sp(c: Cpu, m: Seq<u8>, nn: u16)
    requires
        m.len() == 0x10000,
        nn < 0xFFFF,
        mapped(nn),
        mapped((nn + 1) as u16),
        accessible(nn),
        accessible((nn + 1) as u16),
    ensures
        ld_nn_sp(c, m, nn)[nn as int] == low_byte(c.registers.sp),
        ld_nn_sp(c, m, nn)[nn + 1] == high_byte(c.registers.sp),
        word(ld_nn_sp(c, m, nn)[nn + 1], ld_nn_sp(c, m, nn)[nn as int]) == c.registers.sp,
{
    crate::bits::lemma_word_roundtrip(c.registers.sp, 0, 0);
}

/// The CB-prefixed table: the field x (bits 7..6, see `op_x`) chooses a
/// rotate or shift, BIT, RES or SET; y (bits 5..3) the operation or the
/// bit; z (bits 2..0) the operand. No further byte is fetched and PC is left
/// alone.
pub proof fn lemma_cb_table(c: Cpu, m: Seq<u8>, n: u8)
    ensures
        op_x(n) == 0 ==> cb_step(c, m, n) == rot_table(c, m, spec_rot(op_y(n), op_z(n))),
        op_x(n) == 1 ==> cb_step(c, m, n) == (bit(c, m, op_y(n), spec_r(op_z(n))), m),
        op_x(n) == 2 ==> cb_step(c, m, n) == reset_bit(c, m, op_y(n), spec_r(op_z(n))),
        op_x(n) == 3 ==> cb_step(c, m, n) == set_bit(c, m, op_y(n), spec_r(op_z(n))),
        cb_step(c, m, n).0.pc == c.pc,
{
    let y = op_y(n);
    let reg = spec_r(op_z(n));
    if op_x(n) == 0 {
        lemma_rot_table_keeps_pc(c, m, spec_rot(y, op_z(n)));
    } else if op_x(n) == 2 {
        assert(reset_bit(c, m, y, reg).0.pc == c.pc);
    } else if op_x(n) == 3 {
        assert(set_bit(c, m, y, reg).0.pc == c.pc);
    }
}

proof fn lemma_rot_table_keeps_pc(c: Cpu, m: Seq<u8>, op: CBRot)
    ensures
        rot_table(c, m, op).0.pc == c.pc,
{
    match op {
        CBRot::Rlc(reg) => {},
        CBRot::Rrc(reg) => {},
        CBRot::Rl(reg) => {},
        CBRot::Rr(reg) => {},
        CBRot::Sla(reg) => {},
        CBRot::Sra(reg) => {},
        CBRot::Swap(reg) => {},
        CBRot::Srl(reg) => {},
    }
}

/// The rotate or shift that a CB opcode with bits 7..6 clear names.
pub open spec fn rotate_table_of(c: Cpu, m: Seq<u8>, n: u8) -> (Cpu, Seq<u8>) {
    rot_table(c, m, spec_rot((n >> 3u8) & 7u8, n & 7u8))
}

/// The value of a byte read as two binary-coded decimal digits.
pub open spec fn bcd_value(x: u8) -> int {
    (x / 16) * 10 + x % 16
}

/// Whether both nibbles of a byte are decimal digits.
pub open spec fn is_bcd(x: u8) -> bool {
    x % 16 <= 9 && x / 16 <= 9
}

/// DAA after ADD A, n on two BCD bytes gives the BCD sum modulo 100, with
/// the carry flag set exactly when the decimal sum reached 100.
pub proof fn lemma_daa_after_add(r: Registers, n: u8)
    requires
        is_bcd(r.a),
        is_bcd(n),
    ensures
        ({
            let d = add_result(r, n).daa_result();
            &&& is_bcd(d.a)
            &&& bcd_value(d.a) == (bcd_value(r.a) + bcd_value(n)) % 100
            &&& d.f.carry == (bcd_value(r.a) + bcd_value(n) >= 100)
            &&& d.f.zero == (d.a == 0)
        }),
{
    let a = r.a;
    assert({
        let sum = a as int + n as int;
        let res = (sum % 256) as u8;
        let hc = a % 16 + n % 16 > 15;
        let c = sum > 255;
        let low_fix = hc || res % 16 > 9;
        let high_fix = c || res > 0x99;
        let adj = (if low_fix {
            6int
        } else {
            0
        }) + (if high_fix {
            0x60int
        } else {
            0
        });
        let d = ((res as int + adj) % 256) as u8;
        &&& d % 16 <= 9
        &&& d / 16 <= 9
        &&& (d / 16) * 10 + d % 16 == ((a / 16) * 10 + a % 16 + (n / 16) * 10 + n % 16) % 100
        &&& high_fix == ((a / 16) * 10 + a % 16 + (n / 16) * 10 + n % 16 >= 100)
    }) by (bit_vector)
        requires
            a % 16 <= 9,
            a / 16 <= 9,
            n % 16 <= 9,
            n / 16 <= 9,
    ;
}

/// DAA after SUB n on two BCD bytes gives the BCD difference modulo 100,
/// with the carry flag set exactly when the decimal difference borrowed.
pub proof fn lemma_daa_after_sub(r: Registers, n: u8)
    requires
        is_bcd(r.a),
        is_bcd(n),
    ensures
        ({
            let d = sub_result(r, n).daa_result();
            &&& is_bcd(d.a)
            &&& bcd_value(d.a) == (bcd_value(r.a) - bcd_value(n) + 100) % 100
            &&& d.f.carry == (bcd_value(r.a) < bcd_value(n))
            &&& d.f.zero == (d.a == 0)
        }),
{
    let a = r.a;
    assert({
        let res = ((a as int - n as int + 256) % 256) as u8;
        let hc = a % 16 < n % 16;
        let c = a < n;
        let adj = (if hc {
            6int
        } else {
            0
        }) + (if c {
            0x60int
        } else {
            0
        });
        let d = ((res as int - adj + 256) % 256) as u8;
        &&& d % 16 <= 9
        &&& d / 16 <= 9
        &&& (d / 16) * 10 + d % 16 == ((a / 16) * 10 + a % 16 - (n / 16) * 10 - n % 16 + 100) % 100
        &&& c == ((a / 16) * 10 + a % 16 < (n / 16) * 10 + n % 16)
    }) by (bit_vector)
        requires
            a % 16 <= 9,
            a / 16 <= 9,
            n % 16 <= 9,
            n / 16 <= 9,
    ;
}

} // verus!
