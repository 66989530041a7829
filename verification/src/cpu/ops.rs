//! The executable instructions. Each one is proved to compute the state
//! that `crate::cpu::semantics` gives.

use vstd::prelude::*;
use crate::bits::{
    add_signed_u16, lemma_low_nibble, lemma_split_word, lemma_word_parts, lemma_shl_in,
    lemma_shr_in, lemma_trailing_zeros_nibble, lemma_unsigned_byte, lemma_low_byte_cast,
};
use crate::cpu::{AccFlag, Alu, CBRot, Cpu};
use crate::cpu::semantics;
use crate::cpu::semantics::{
    flags, sp_plus_d_flags, add_result, adc_result, sub_result, sbc_result, and_result,
    xor_result, or_result, cp_result,
};
use crate::memory::{Memory, accessible};
use crate::registers::{Condition, Register, RegisterPair, in_register_file};

verus! {

impl Cpu {
    fn pop(&mut self, memory: &mut Memory) -> (v: u16)
        requires
            semantics::pop_ok(*old(self)),
        ensures
            v == semantics::pop_value(*old(self), old(memory)@),
            *final(self) == semantics::pop_cpu(*old(self)),
            final(memory)@ == old(memory)@,
    {
        let low = memory.read(self.registers.sp);
        self.registers.sp = self.registers.sp.wrapping_add(1);
        let high = memory.read(self.registers.sp);
        self.registers.sp = self.registers.sp.wrapping_add(1);
        proof {
            lemma_word_parts(high, low);
        }
        (u16::from(high) << 8) | u16::from(low)
    }

    pub fn push(&mut self, nn: u16, memory: &mut Memory)
        requires
            semantics::push_ok(*old(self)),
        ensures
            (*final(self), final(memory)@) == semantics::push(*old(self), old(memory)@, nn),
    {
        proof {
            lemma_split_word(nn);
        }
        let low = (nn & 0xFF) as u8;
        let high = (nn >> 8) as u8;
        self.registers.sp = self.registers.sp.wrapping_sub(1);
        memory.write(self.registers.sp, high);
        self.registers.sp = self.registers.sp.wrapping_sub(1);
        memory.write(self.registers.sp, low);
    }

    pub fn pop_rp2(&mut self, rp: &RegisterPair, memory: &mut Memory)
        requires
            semantics::pop_ok(*old(self)),
        ensures
            *final(self) == semantics::pop_rp2(*old(self), old(memory)@, *rp),
            final(memory)@ == old(memory)@,
    {
        let val = self.pop(memory);
        self.registers.set_rp(rp, val);
    }

    pub fn push_rp2(&mut self, rp: &RegisterPair, memory: &mut Memory)
        requires
            semantics::push_ok(*old(self)),
        ensures
            (*final(self), final(memory)@) == semantics::push_rp2(*old(self), old(memory)@, *rp),
    {
        let val = self.registers.get_rp(rp);
        proof {
            lemma_split_word(val);
        }
        let low = (val & 0xFF) as u8;
        let high = (val >> 8) as u8;

        self.registers.sp = self.registers.sp.wrapping_sub(1);
        memory.write(self.registers.sp, high);
        self.registers.sp = self.registers.sp.wrapping_sub(1);
        memory.write(self.registers.sp, low);
    }

    pub fn jr(&mut self, cc: &Condition, n: i8)
        ensures
            *final(self) == semantics::jr(*old(self), *cc, n),
    {
        if self.registers.cc_match(cc) {
            self.pc = self.pc.wrapping_add_signed(i16::from(n));
        }
    }

    pub fn jp(&mut self, cc: &Condition, nn: u16)
        ensures
            *final(self) == semantics::jp(*old(self), *cc, nn),
    {
        if self.registers.cc_match(cc) {
            self.pc = nn;
        }
    }

    pub fn call(&mut self, cc: &Condition, nn: u16, memory: &mut Memory)
        requires
            old(self).registers.spec_cc_match(cc) ==> semantics::push_ok(*old(self)),
        ensures
            (*final(self), final(memory)@) == semantics::call(*old(self), old(memory)@, *cc, nn),
    {
        if self.registers.cc_match(cc) {
            self.push(self.pc, memory);
            self.pc = nn;
        }
    }

    pub fn rst(&mut self, y: u8, memory: &mut Memory)
        requires
            semantics::push_ok(*old(self)),
            y <= 31,
        ensures
            (*final(self), final(memory)@) == semantics::rst(*old(self), old(memory)@, y),
    {
        self.push(self.pc, memory);
        self.pc = u16::from(y * 8);
    }

    pub fn ret(&mut self, cc: &Condition, memory: &mut Memory)
        requires
            old(self).registers.spec_cc_match(cc) ==> semantics::pop_ok(*old(self)),
        ensures
            *final(self) == semantics::ret(*old(self), old(memory)@, *cc),
            final(memory)@ == old(memory)@,
    {
        if self.registers.cc_match(cc) {
            self.pc = self.pop(memory);
        }
    }

    pub fn reti(&mut self, memory: &mut Memory)
        requires
            semantics::pop_ok(*old(self)),
        ensures
            *final(self) == semantics::reti(*old(self), old(memory)@),
            final(memory)@ == old(memory)@,
    {
        self.ei();
        self.ret(&Condition::Always, memory);
    }

    pub fn ei(&mut self)
        ensures
            *final(self) == (Cpu { ime: true, ..*old(self) }),
    {
        self.ime = true;
    }

    pub fn di(&mut self)
        ensures
            *final(self) == (Cpu { ime: false, ..*old(self) }),
    {
        self.ime = false;
    }

    pub fn bit(&mut self, y: u8, r: &Register, memory: &mut Memory)
        requires
            semantics::operand_ok(*old(self), *r),
            y < 8,
        ensures
            *final(self) == semantics::bit(*old(self), old(memory)@, y, *r),
            final(memory)@ == old(memory)@,
    {
        let n = match r {
            Register::HLDirect => memory.read(self.registers.hl()),
            _ => self.registers.get_r(r),
        };

        self.registers.f.zero = (n >> y) & 1 == 0;
        self.registers.f.half_carry = true;
        self.registers.f.subtract = false;
    }

    pub fn acc_flags(&mut self, af: &AccFlag)
        ensures
            *final(self) == semantics::acc_flags(*old(self), *af),
    {
        match af {
            AccFlag::Rlca => self.rotate_left_a(false),
            AccFlag::Rrca => self.rotate_right_a(false),
            AccFlag::Rla => self.rotate_left_a(true),
            AccFlag::Rra => self.rotate_right_a(true),
            AccFlag::Daa => self.registers.daa(),
            AccFlag::Cpl => self.registers.cpl(),
            AccFlag::Scf => self.registers.scf(),
            AccFlag::Ccf => self.registers.ccf(),
        }
    }

    pub fn rot_table(&mut self, rot: &CBRot, memory: &mut Memory)
        requires
            semantics::operand_ok(*old(self), semantics::rot_operand(*rot)),
        ensures
            (*final(self), final(memory)@) == semantics::rot_table(*old(self), old(memory)@, *rot),
    {
        match rot {
            CBRot::Rlc(register) => self.rotate_left(register, false, memory),
            CBRot::Rrc(register) => self.rotate_right(register, false, memory),
            CBRot::Rl(register) => self.rotate_left(register, true, memory),
            CBRot::Rr(register) => self.rotate_right(register, true, memory),
            CBRot::Sla(register) => self.sla(register, memory),
            CBRot::Sra(register) => self.sra(register, memory),
            CBRot::Swap(register) => self.swap(register, memory),
            CBRot::Srl(register) => self.srl(register, memory),
        }
    }

    pub fn alu_op_r(&mut self, alu: &Alu, r: &Register, memory: &mut Memory)
        requires
            semantics::operand_ok(*old(self), *r),
        ensures
            *final(self) == semantics::alu_op_r(*old(self), old(memory)@, *alu, *r),
            final(memory)@ == old(memory)@,
    {
        let n = match r {
            Register::HLDirect => memory.read(self.registers.hl()),
            _ => self.registers.get_r(r),
        };
        self.alu_op_n(alu, n);
    }

    pub fn alu_op_n(&mut self, alu: &Alu, n: u8)
        ensures
            *final(self) == semantics::alu_op_n(*old(self), *alu, n),
    {
        match alu {
            Alu::Add => self.add_a_n(n),
            Alu::Adc => self.adc_a_n(n),
            Alu::Sub => self.sub_n(n),
            Alu::Sbc => self.sbc_n(n),
            Alu::And => self.and_n(n),
            Alu::Xor => self.xor_n(n),
            Alu::Or => self.or_n(n),
            Alu::Cp => self.cp_n(n),
        }
    }

    pub fn ld_nn_sp(&mut self, nn: u16, memory: &mut Memory)
        requires
            accessible(nn),
            accessible((nn + 1) as u16),
            nn < 0xFFFF,
        ensures
            *final(self) == *old(self),
            final(memory)@ == semantics::ld_nn_sp(*old(self), old(memory)@, nn),
    {
        proof {
            lemma_split_word(self.registers.sp);
        }
        memory.write(nn, (self.registers.sp & 0xFF) as u8);
        memory.write(nn + 1, (self.registers.sp >> 8) as u8);
    }

    pub fn ld_hl_sp_d(&mut self, d: i8)
        ensures
            *final(self) == semantics::ld_hl_sp_d(*old(self), d),
    {
        let old_sp_low = self.registers.sp as u8;
        let d_unsigned = d as u8;
        proof {
            lemma_low_byte_cast(self.registers.sp);
            lemma_unsigned_byte(d);
            lemma_low_nibble(old_sp_low);
            lemma_low_nibble(d_unsigned);
        }

        let new_sp = self.registers.sp.wrapping_add_signed(i16::from(d));
        assert(new_sp == add_signed_u16(self.registers.sp, d as int));

        let carry = old_sp_low.checked_add(d_unsigned).is_none();
        let half_carry = (old_sp_low & 0xF) + (d_unsigned & 0xF) > 0xF;
        assert(flags(false, false, half_carry, carry) == sp_plus_d_flags(self.registers.sp, d));

        self.registers.f.zero = false;
        self.registers.f.subtract = false;
        self.registers.f.carry = carry;
        self.registers.f.half_carry = half_carry;
        self.registers.set_hl(new_sp);
    }

    pub fn ld_r_hl(&mut self, r: &Register, memory: &mut Memory)
        requires
            accessible(old(self).registers.spec_hl()),
            in_register_file(*r),
        ensures
            *final(self) == semantics::ld_r_nn(
                *old(self),
                old(memory)@,
                *r,
                old(self).registers.spec_hl(),
            ),
            final(memory)@ == old(memory)@,
    {
        let val = memory.read(self.registers.hl());
        self.registers.set_r(r, val);
    }

    pub fn ld_hl_r(&mut self, r: &Register, memory: &mut Memory)
        requires
            accessible(old(self).registers.spec_hl()),
            in_register_file(*r),
        ensures
            *final(self) == *old(self),
            final(memory)@ == semantics::ld_nn_r(
                *old(self),
                old(memory)@,
                old(self).registers.spec_hl(),
                *r,
            ),
    {
        let val = self.registers.get_r(r);
        memory.write(self.registers.hl(), val);
    }

    pub fn ld_nn_r(&mut self, nn: u16, r: &Register, memory: &mut Memory)
        requires
            accessible(nn),
            in_register_file(*r),
        ensures
            *final(self) == *old(self),
            final(memory)@ == semantics::ld_nn_r(*old(self), old(memory)@, nn, *r),
    {
        let reg = self.registers.get_r(r);
        memory.write(nn, reg);
    }

    pub fn ld_r_nn(&mut self, r: &Register, nn: u16, memory: &mut Memory)
        requires
            accessible(nn),
            in_register_file(*r),
        ensures
            *final(self) == semantics::ld_r_nn(*old(self), old(memory)@, *r, nn),
            final(memory)@ == old(memory)@,
    {
        let val = memory.read(nn);
        self.registers.set_r(r, val);
    }

    pub fn ld_r_addr(&mut self, r: &Register, addr: u16, memory: &mut Memory)
        requires
            accessible(addr),
            in_register_file(*r),
        ensures
            *final(self) == semantics::ld_r_nn(*old(self), old(memory)@, *r, addr),
            final(memory)@ == old(memory)@,
    {
        self.registers.set_r(r, memory.read(addr));
    }

    pub fn ld_addr_r(&mut self, addr: u16, r: &Register, memory: &mut Memory)
        requires
            accessible(addr),
            in_register_file(*r),
        ensures
            *final(self) == *old(self),
            final(memory)@ == semantics::ld_nn_r(*old(self), old(memory)@, addr, *r),
    {
        let reg = self.registers.get_r(r);
        memory.write(addr, reg);
    }

    pub fn ld_r_r(&mut self, r1: &Register, r2: &Register)
        requires
            in_register_file(*r1),
            in_register_file(*r2),
        ensures
            *final(self) == semantics::ld_r_r(*old(self), *r1, *r2),
    {
        let r2_val = self.registers.get_r(r2);
        self.registers.set_r(r1, r2_val);
    }

    pub fn halt(&mut self, memory: &mut Memory)
        ensures
            *final(self) == semantics::halt(*old(self), old(memory)@),
            final(memory)@ == old(memory)@,
    {
        let pending = memory.read(0xFFFF) & memory.read(0xFF0F) != 0;
        if self.ime || !pending {
            self.halted = true;
        } else {
            self.halt_bug = true;
        }
    }

    pub fn add_a_n(&mut self, n: u8)
        ensures
            *final(self) == old(self).with_registers(add_result(old(self).registers, n)),
    {
        let old_a = self.registers.a;
        let res = self.registers.a.wrapping_add(n);
        let carry = self.registers.a.checked_add(n).is_none();
        proof {
            lemma_low_nibble(n);
            lemma_low_nibble(old_a);
        }
        self.registers.a = res;
        self.registers.f.zero = res == 0;
        self.registers.f.subtract = false;
        self.registers.f.carry = carry;
        self.registers.f.half_carry = (n & 0xF) + (old_a & 0xF) > 0xF;
    }

    pub fn add_sp_d(&mut self, d: i8)
        ensures
            *final(self) == semantics::add_sp_d(*old(self), d),
    {
        let old_sp_low = self.registers.sp as u8;
        let d_unsigned = d as u8;
        proof {
            lemma_low_byte_cast(self.registers.sp);
            lemma_unsigned_byte(d);
            lemma_low_nibble(old_sp_low);
            lemma_low_nibble(d_unsigned);
        }

        self.registers.sp = self.registers.sp.wrapping_add_signed(i16::from(d));

        let carry = old_sp_low.checked_add(d_unsigned).is_none();

        self.registers.f.zero = false;
        self.registers.f.subtract = false;
        self.registers.f.carry = carry;
        self.registers.f.half_carry = (old_sp_low & 0xF) + (d_unsigned & 0xF) > 0xF;
    }

    pub fn adc_a_n(&mut self, n: u8)
        ensures
            *final(self) == old(self).with_registers(adc_result(old(self).registers, n)),
    {
        let old_a = self.registers.a;
        let carry_in: u8 = if self.registers.f.carry {
            1
        } else {
            0
        };
        let no_carry_res = self.registers.a.wrapping_add(n);
        let carry1 = self.registers.a.checked_add(n).is_none();
        let res = no_carry_res.wrapping_add(carry_in);
        let carry2 = no_carry_res.checked_add(carry_in).is_none();
        proof {
            lemma_low_nibble(n);
            lemma_low_nibble(old_a);
        }
        self.registers.a = res;
        self.registers.f.zero = res == 0;
        self.registers.f.subtract = false;
        self.registers.f.carry = carry1 || carry2;
        self.registers.f.half_carry = (n & 0xF) + (old_a & 0xF) + carry_in > 0xF;
    }

    pub fn sub_n(&mut self, n: u8)
        ensures
            *final(self) == old(self).with_registers(sub_result(old(self).registers, n)),
    {
        let old_a = self.registers.a;
        let res = self.registers.a.wrapping_sub(n);
        let carry = self.registers.a.checked_sub(n).is_none();
        proof {
            lemma_low_nibble(n);
            lemma_low_nibble(old_a);
        }
        self.registers.a = res;
        self.registers.f.zero = res == 0;
        self.registers.f.subtract = true;
        self.registers.f.carry = carry;
        self.registers.f.half_carry = (old_a & 0xF) < (n & 0xF);
    }

    pub fn sbc_n(&mut self, n: u8)
        ensures
            *final(self) == old(self).with_registers(sbc_result(old(self).registers, n)),
    {
        let old_a = self.registers.a;
        let carry_in: u8 = if self.registers.f.carry {
            1
        } else {
            0
        };
        let res1 = self.registers.a.wrapping_sub(n);
        let carry1 = self.registers.a.checked_sub(n).is_none();
        let res2 = res1.wrapping_sub(carry_in);
        let carry2 = res1.checked_sub(carry_in).is_none();
        proof {
            lemma_low_nibble(n);
            lemma_low_nibble(old_a);
        }
        self.registers.a = res2;
        self.registers.f.zero = res2 == 0;
        self.registers.f.subtract = true;
        self.registers.f.carry = carry1 || carry2;
        self.registers.f.half_carry = (old_a & 0xF) < (n & 0xF) + carry_in;
    }

    pub fn and_n(&mut self, n: u8)
        ensures
            *final(self) == old(self).with_registers(and_result(old(self).registers, n)),
    {
        self.registers.a &= n;
        self.registers.f.zero = self.registers.a == 0;
        self.registers.f.subtract = false;
        self.registers.f.carry = false;
        self.registers.f.half_carry = true;
    }

    pub fn xor_n(&mut self, n: u8)
        ensures
            *final(self) == old(self).with_registers(xor_result(old(self).registers, n)),
    {
        self.registers.a ^= n;
        self.registers.f.zero = self.registers.a == 0;
        self.registers.f.subtract = false;
        self.registers.f.carry = false;
        self.registers.f.half_carry = false;
    }

    pub fn or_n(&mut self, n: u8)
        ensures
            *final(self) == old(self).with_registers(or_result(old(self).registers, n)),
    {
        self.registers.a |= n;
        self.registers.f.zero = self.registers.a == 0;
        self.registers.f.subtract = false;
        self.registers.f.carry = false;
        self.registers.f.half_carry = false;
    }

    pub fn cp_n(&mut self, n: u8)
        ensures
            *final(self) == old(self).with_registers(cp_result(old(self).registers, n)),
    {
        let res = self.registers.a.wrapping_sub(n);
        let carry = self.registers.a.checked_sub(n).is_none();
        proof {
            lemma_low_nibble(n);
            lemma_low_nibble(self.registers.a);
        }
        self.registers.f.zero = res == 0;
        self.registers.f.subtract = true;
        self.registers.f.carry = carry;
        self.registers.f.half_carry = (self.registers.a & 0xF) < (n & 0xF);
    }

    pub fn rotate_left(&mut self, r: &Register, through_carry: bool, memory: &mut Memory)
        requires
            semantics::operand_ok(*old(self), *r),
        ensures
            (*final(self), final(memory)@) == semantics::rotate_left(
                *old(self),
                old(memory)@,
                *r,
                through_carry,
            ),
    {
        let val = match r {
            Register::HLDirect => memory.read(self.registers.hl()),
            _ => self.registers.get_r(r),
        };
        proof {
            lemma_shl_in(val, 0);
        }
        let bit7 = val >> 7;
        let carry_in = if through_carry {
            if self.registers.f.carry {
                1
            } else {
                0
            }
        } else {
            bit7
        };
        proof {
            lemma_shl_in(val, carry_in);
        }

        let res = (val << 1) | carry_in;
        match r {
            Register::HLDirect => memory.write(self.registers.hl(), res),
            _ => self.registers.set_r(r, res),
        }
        self.registers.f.carry = bit7 == 1;
        self.registers.f.subtract = false;
        self.registers.f.half_carry = false;
        self.registers.f.zero = res == 0;
    }

    pub fn rotate_left_a(&mut self, through_carry: bool)
        ensures
            *final(self) == old(self).with_registers(
                old(self).registers.rotate_left_result(Register::A, through_carry),
            ),
    {
        let val = self.registers.a;
        proof {
            lemma_shl_in(val, 0);
        }
        let bit7 = val >> 7;
        let carry_in = if through_carry {
            if self.registers.f.carry {
                1
            } else {
                0
            }
        } else {
            bit7
        };
        proof {
            lemma_shl_in(val, carry_in);
        }

        let res = (val << 1) | carry_in;
        self.registers.set_r(&Register::A, res);
        self.registers.f.carry = bit7 == 1;
        self.registers.f.subtract = false;
        self.registers.f.half_carry = false;
        self.registers.f.zero = false;
    }

    pub fn rotate_right(&mut self, r: &Register, through_carry: bool, memory: &mut Memory)
        requires
            semantics::operand_ok(*old(self), *r),
        ensures
            (*final(self), final(memory)@) == semantics::rotate_right(
                *old(self),
                old(memory)@,
                *r,
                through_carry,
            ),
    {
        let val = match r {
            Register::HLDirect => memory.read(self.registers.hl()),
            _ => self.registers.get_r(r),
        };
        proof {
            lemma_shr_in(val, 0);
        }
        let bit0 = val & 1;
        let carry_in = if through_carry {
            if self.registers.f.carry {
                1
            } else {
                0
            }
        } else {
            bit0
        };
        proof {
            lemma_shr_in(val, carry_in);
        }
        let res = (carry_in << 7) | val >> 1;
        match r {
            Register::HLDirect => memory.write(self.registers.hl(), res),
            _ => self.registers.set_r(r, res),
        }
        self.registers.f.carry = bit0 == 1;
        self.registers.f.subtract = false;
        self.registers.f.half_carry = false;
        self.registers.f.zero = res == 0;
    }

    pub fn rotate_right_a(&mut self, through_carry: bool)
        ensures
            *final(self) == old(self).with_registers(
                old(self).registers.rotate_right_result(Register::A, through_carry),
            ),
    {
        let val = self.registers.a;
        proof {
            lemma_shr_in(val, 0);
        }
        let bit0 = val & 1;
        let carry_in = if through_carry {
            if self.registers.f.carry {
                1
            } else {
                0
            }
        } else {
            bit0
        };
        proof {
            lemma_shr_in(val, carry_in);
        }
        let res = (carry_in << 7) | val >> 1;
        self.registers.set_r(&Register::A, res);
        self.registers.f.carry = bit0 == 1;
        self.registers.f.subtract = false;
        self.registers.f.half_carry = false;
        self.registers.f.zero = false;
    }

    pub fn inc_r(&mut self, r: &Register, memory: &mut Memory)
        requires
            semantics::operand_ok(*old(self), *r),
        ensures
            (*final(self), final(memory)@) == semantics::inc_r(*old(self), old(memory)@, *r),
    {
        let val = match r {
            Register::HLDirect => memory.read(self.registers.hl()),
            _ => self.registers.get_r(r),
        };
        proof {
            lemma_low_nibble(val);
            assert(1u8 & 0xFu8 == 1) by (bit_vector);
        }

        let res = val.wrapping_add(1);
        assert(res == ((val + 1) % 256) as u8);
        let half_carry = (val & 0xF) + (1 & 0xF) > 0xF;
        assert(half_carry == (val % 16 == 15));
        self.registers.f.subtract = false;
        self.registers.f.zero = res == 0;
        self.registers.f.half_carry = half_carry;

        match r {
            Register::HLDirect => memory.write(self.registers.hl(), res),
            _ => self.registers.set_r(r, res),
        }
    }

    pub fn dec_r(&mut self, r: &Register, memory: &mut Memory)
        requires
            semantics::operand_ok(*old(self), *r),
        ensures
            (*final(self), final(memory)@) == semantics::dec_r(*old(self), old(memory)@, *r),
    {
        let val = match r {
            Register::HLDirect => memory.read(self.registers.hl()),
            _ => self.registers.get_r(r),
        };
        let res = val.wrapping_sub(1);
        assert(res == ((val + 255) % 256) as u8);
        let half_carry = val.trailing_zeros() >= 4;
        proof {
            lemma_trailing_zeros_nibble(val);
        }
        assert(half_carry == (val % 16 == 0));
        self.registers.f.subtract = true;
        self.registers.f.zero = res == 0;
        self.registers.f.half_carry = half_carry;

        match r {
            Register::HLDirect => memory.write(self.registers.hl(), res),
            _ => self.registers.set_r(r, res),
        }
    }

    pub fn sla(&mut self, r: &Register, memory: &mut Memory)
        requires
            semantics::operand_ok(*old(self), *r),
        ensures
            (*final(self), final(memory)@) == semantics::sla(*old(self), old(memory)@, *r),
    {
        let val = match r {
            Register::HLDirect => memory.read(self.registers.hl()),
            _ => self.registers.get_r(r),
        };
        proof {
            lemma_shl_in(val, 0);
        }
        let bit7 = (val >> 7) & 1;
        let res = val << 1;
        match r {
            Register::HLDirect => memory.write(self.registers.hl(), res),
            _ => self.registers.set_r(r, res),
        }
        self.registers.f.carry = bit7 == 1;
        self.registers.f.subtract = false;
        self.registers.f.half_carry = false;
        self.registers.f.zero = res == 0;
    }

    pub fn sra(&mut self, r: &Register, memory: &mut Memory)
        requires
            semantics::operand_ok(*old(self), *r),
        ensures
            (*final(self), final(memory)@) == semantics::sra(*old(self), old(memory)@, *r),
    {
        let val = match r {
            Register::HLDirect => memory.read(self.registers.hl()),
            _ => self.registers.get_r(r),
        };
        proof {
            lemma_shr_in(val, 0);
        }
        let bit0 = val & 1;
        let bit7 = val & 0x80;
        let res = val >> 1 | bit7;
        match r {
            Register::HLDirect => memory.write(self.registers.hl(), res),
            _ => self.registers.set_r(r, res),
        }
        self.registers.f.carry = bit0 == 1;
        self.registers.f.subtract = false;
        self.registers.f.half_carry = false;
        self.registers.f.zero = res == 0;
    }

    pub fn srl(&mut self, r: &Register, memory: &mut Memory)
        requires
            semantics::operand_ok(*old(self), *r),
        ensures
            (*final(self), final(memory)@) == semantics::srl(*old(self), old(memory)@, *r),
    {
        let val = match r {
            Register::HLDirect => memory.read(self.registers.hl()),
            _ => self.registers.get_r(r),
        };
        proof {
            lemma_shr_in(val, 0);
        }
        let bit0 = val & 1;
        let res = val >> 1;
        match r {
            Register::HLDirect => memory.write(self.registers.hl(), res),
            _ => self.registers.set_r(r, res),
        }
        self.registers.f.carry = bit0 == 1;
        self.registers.f.subtract = false;
        self.registers.f.half_carry = false;
        self.registers.f.zero = res == 0;
    }

    pub fn swap(&mut self, r: &Register, memory: &mut Memory)
        requires
            semantics::operand_ok(*old(self), *r),
        ensures
            (*final(self), final(memory)@) == semantics::swap(*old(self), old(memory)@, *r),
    {
        let val = match r {
            Register::HLDirect => memory.read(self.registers.hl()),
            _ => self.registers.get_r(r),
        };

        let low = val & 0x0F;
        let high = val >> 4;
        proof {
            assert(((val & 0x0Fu8) << 4u8) | (val >> 4u8) == (val % 16) * 16 + val / 16)
                by (bit_vector);
        }
        let new_val = ((low) << 4) | high;

        match r {
            Register::HLDirect => memory.write(self.registers.hl(), new_val),
            _ => self.registers.set_r(r, new_val),
        }

        self.registers.f.carry = false;
        self.registers.f.subtract = false;
        self.registers.f.half_carry = false;
        self.registers.f.zero = new_val == 0;
    }

    pub fn res(&mut self, y: u8, r: &Register, memory: &mut Memory)
        requires
            semantics::operand_ok(*old(self), *r),
            y < 8,
        ensures
            (*final(self), final(memory)@) == semantics::reset_bit(*old(self), old(memory)@, y, *r),
    {
        let val = match r {
            Register::HLDirect => memory.read(self.registers.hl()),
            _ => self.registers.get_r(r),
        };

        let mask = !(1u8 << y);

        let new_val = val & mask;

        match r {
            Register::HLDirect => memory.write(self.registers.hl(), new_val),
            _ => self.registers.set_r(r, new_val),
        }
    }

    pub fn set(&mut self, y: u8, r: &Register, memory: &mut Memory)
        requires
            semantics::operand_ok(*old(self), *r),
            y < 8,
        ensures
            (*final(self), final(memory)@) == semantics::set_bit(*old(self), old(memory)@, y, *r),
    {
        let val = match r {
            Register::HLDirect => memory.read(self.registers.hl()),
            _ => self.registers.get_r(r),
        };

        let mask = 1u8 << y;

        let new_val = val | mask;

        match r {
            Register::HLDirect => memory.write(self.registers.hl(), new_val),
            _ => self.registers.set_r(r, new_val),
        }
    }
}

} // verus!
