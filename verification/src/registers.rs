//! The SM83 register file: the accumulator, the flags register, the six
//! general purpose 8-bit registers, their 16-bit pairings and the stack
//! pointer.

use vstd::prelude::*;
use crate::bits::{
    word, high_byte, low_byte, shl_in, shr_in, lemma_word_parts, lemma_split_word,
    lemma_low_nibble, lemma_low_nibble_u16, lemma_shl_in, lemma_shr_in,
};

verus! {

const ZERO_FLAG_BYTE_POSITION: u8 = 7;

const SUBTRACT_FLAG_BYTE_POSITION: u8 = 6;

const HALF_CARRY_FLAG_BYTE_POSITION: u8 = 5;

const CARRY_FLAG_BYTE_POSITION: u8 = 4;

/// The four flags of the F register (bits 7 to 4; bits 3 to 0 always read 0).
#[derive(Clone, Copy)]
pub struct FlagsRegister {
    pub zero: bool,
    pub subtract: bool,
    pub half_carry: bool,
    pub carry: bool,
}

/// An 8-bit register operand. `HLDirect` is the byte of memory that HL
/// points at; the register file itself cannot read or write it.
pub enum Register {
    A,
    B,
    C,
    D,
    E,
    H,
    L,
    F,
    HLDirect,
}

/// A 16-bit register operand.
pub enum RegisterPair {
    AF,
    BC,
    DE,
    HL,
    SP,
}

/// A branch condition on the flags.
pub enum Condition {
    NZ,
    Z,
    NC,
    C,
    Always,
}

impl FlagsRegister {
    /// The byte that F reads as.
    pub open spec fn byte(self) -> u8 {
        ((if self.zero {
            128int
        } else {
            0
        }) + (if self.subtract {
            64int
        } else {
            0
        }) + (if self.half_carry {
            32int
        } else {
            0
        }) + (if self.carry {
            16int
        } else {
            0
        })) as u8
    }

    /// The flags that a byte written to F sets: bit 7 is zero, bit 6
    /// subtract, bit 5 half carry, bit 4 carry.
    pub open spec fn from_byte(b: u8) -> FlagsRegister {
        FlagsRegister {
            zero: (b / 128) % 2 == 1,
            subtract: (b / 64) % 2 == 1,
            half_carry: (b / 32) % 2 == 1,
            carry: (b / 16) % 2 == 1,
        }
    }

    /// Reading F back gives the flags that were stored.
    pub proof fn lemma_from_byte_of_byte(f: FlagsRegister)
        ensures
            FlagsRegister::from_byte(f.byte()) == f,
    {
    }

    /// Writing a byte to F keeps its upper nibble and clears the lower one.
    pub proof fn lemma_byte_of_from_byte(b: u8)
        ensures
            FlagsRegister::from_byte(b).byte() == b / 16 * 16,
    {
    }
}

/// The layout of F: Z is bit 7, N bit 6, H bit 5, C bit 4, and bits 3 to 0
/// read as zero; writing a byte to F sets each flag from the same bit.
pub proof fn lemma_flags_layout(f: FlagsRegister, b: u8)
    ensures
        ((f.byte() >> 7u8) & 1u8 == 1u8) == f.zero,
        ((f.byte() >> 6u8) & 1u8 == 1u8) == f.subtract,
        ((f.byte() >> 5u8) & 1u8 == 1u8) == f.half_carry,
        ((f.byte() >> 4u8) & 1u8 == 1u8) == f.carry,
        f.byte() & 0x0Fu8 == 0,
        FlagsRegister::from_byte(b).zero == (b & 0x80u8 != 0),
        FlagsRegister::from_byte(b).subtract == (b & 0x40u8 != 0),
        FlagsRegister::from_byte(b).half_carry == (b & 0x20u8 != 0),
        FlagsRegister::from_byte(b).carry == (b & 0x10u8 != 0),
{
    let x = f.byte();
    let z: u8 = if f.zero { 1 } else { 0 };
    let s: u8 = if f.subtract { 1 } else { 0 };
    let h: u8 = if f.half_carry { 1 } else { 0 };
    let c: u8 = if f.carry { 1 } else { 0 };
    assert(x == z * 128 + s * 64 + h * 32 + c * 16);
    assert({
        &&& ((x >> 7u8) & 1u8 == 1u8) == (z == 1)
        &&& ((x >> 6u8) & 1u8 == 1u8) == (s == 1)
        &&& ((x >> 5u8) & 1u8 == 1u8) == (h == 1)
        &&& ((x >> 4u8) & 1u8 == 1u8) == (c == 1)
        &&& x & 0x0Fu8 == 0
    }) by (bit_vector)
        requires
            z <= 1,
            s <= 1,
            h <= 1,
            c <= 1,
            x == z * 128 + s * 64 + h * 32 + c * 16,
    ;
    assert({
        &&& ((b / 128) % 2 == 1) == (b & 0x80u8 != 0)
        &&& ((b / 64) % 2 == 1) == (b & 0x40u8 != 0)
        &&& ((b / 32) % 2 == 1) == (b & 0x20u8 != 0)
        &&& ((b / 16) % 2 == 1) == (b & 0x10u8 != 0)
    }) by (bit_vector);
}

impl From<u8> for FlagsRegister {
    fn from(byte: u8) -> (flags: Self) {
        let zero = ((byte >> ZERO_FLAG_BYTE_POSITION) & 0b1) != 0;
        let subtract = ((byte >> SUBTRACT_FLAG_BYTE_POSITION) & 0b1) != 0;
        let half_carry = ((byte >> HALF_CARRY_FLAG_BYTE_POSITION) & 0b1) != 0;
        let carry = ((byte >> CARRY_FLAG_BYTE_POSITION) & 0b1) != 0;
        proof {
            assert((((byte >> 7u8) & 1u8) != 0) == ((byte / 128) % 2 == 1)) by (bit_vector);
            assert((((byte >> 6u8) & 1u8) != 0) == ((byte / 64) % 2 == 1)) by (bit_vector);
            assert((((byte >> 5u8) & 1u8) != 0) == ((byte / 32) % 2 == 1)) by (bit_vector);
            assert((((byte >> 4u8) & 1u8) != 0) == ((byte / 16) % 2 == 1)) by (bit_vector);
        }
        Self { zero, subtract, half_carry, carry }
    }
}

impl vstd::std_specs::convert::FromSpecImpl<u8> for FlagsRegister {
    open spec fn obeys_from_spec() -> bool {
        true
    }

    open spec fn from_spec(v: u8) -> Self {
        FlagsRegister::from_byte(v)
    }
}

impl From<FlagsRegister> for u8 {
    fn from(flag: FlagsRegister) -> (byte: Self) {
        let z: u8 = if flag.zero {
            1
        } else {
            0
        };
        let s: u8 = if flag.subtract {
            1
        } else {
            0
        };
        let h: u8 = if flag.half_carry {
            1
        } else {
            0
        };
        let c: u8 = if flag.carry {
            1
        } else {
            0
        };
        proof {
            assert((z << 7u8) | (s << 6u8) | (h << 5u8) | (c << 4u8) == z * 128 + s * 64 + h * 32
                + c * 16) by (bit_vector)
                requires
                    z <= 1,
                    s <= 1,
                    h <= 1,
                    c <= 1,
            ;
        }
        (z << ZERO_FLAG_BYTE_POSITION) | (s << SUBTRACT_FLAG_BYTE_POSITION) | (h
            << HALF_CARRY_FLAG_BYTE_POSITION) | (c << CARRY_FLAG_BYTE_POSITION)
    }
}

impl vstd::std_specs::convert::FromSpecImpl<FlagsRegister> for u8 {
    open spec fn obeys_from_spec() -> bool {
        true
    }

    open spec fn from_spec(v: FlagsRegister) -> Self {
        v.byte()
    }
}

/// The register file.
#[derive(Clone, Copy)]
pub struct Registers {
    pub a: u8,
    pub f: FlagsRegister,
    pub b: u8,
    pub c: u8,
    pub d: u8,
    pub e: u8,
    pub h: u8,
    pub l: u8,
    pub sp: u16,
}

impl Default for Registers {
    /// The values the DMG boot ROM leaves behind.
    fn default() -> (r: Self)
        ensures
            r.a == 0x01,
            r.f.byte() == 0xB0,
            r.f == FlagsRegister::from_byte(0xB0),
            r.b == 0x00,
            r.c == 0x13,
            r.d == 0x00,
            r.e == 0xD8,
            r.h == 0x01,
            r.l == 0x4D,
            r.sp == 0xFFFE,
    {
        Self {
            a: 0x01,
            f: FlagsRegister::from(0xB0),
            b: 0x00,
            c: 0x13,
            d: 0x00,
            e: 0xD8,
            h: 0x01,
            l: 0x4D,
            sp: 0xFFFE,
        }
    }
}

/// Whether an 8-bit operand lives in the register file (and not in memory).
pub open spec fn in_register_file(r: Register) -> bool {
    !(r is HLDirect)
}

/// Whether an 8-bit operand is one of the seven data registers A, B, C, D,
/// E, H and L.
pub open spec fn is_data_register(r: Register) -> bool {
    !(r is HLDirect) && !(r is F)
}

impl Registers {
    pub open spec fn spec_af(&self) -> u16 {
        word(self.a, self.f.byte())
    }

    pub open spec fn spec_bc(&self) -> u16 {
        word(self.b, self.c)
    }

    pub open spec fn spec_de(&self) -> u16 {
        word(self.d, self.e)
    }

    pub open spec fn spec_hl(&self) -> u16 {
        word(self.h, self.l)
    }

    /// The value of a 16-bit register operand.
    pub open spec fn spec_get_rp(&self, rp: &RegisterPair) -> u16 {
        match rp {
            RegisterPair::AF => self.spec_af(),
            RegisterPair::BC => self.spec_bc(),
            RegisterPair::DE => self.spec_de(),
            RegisterPair::HL => self.spec_hl(),
            RegisterPair::SP => self.sp,
        }
    }

    /// The value of an 8-bit register operand held in the register file.
    pub open spec fn spec_get_r(&self, r: &Register) -> u8 {
        match r {
            Register::A => self.a,
            Register::B => self.b,
            Register::C => self.c,
            Register::D => self.d,
            Register::E => self.e,
            Register::H => self.h,
            Register::L => self.l,
            Register::F => self.f.byte(),
            Register::HLDirect => 0,
        }
    }

    /// The register file with an 8-bit register replaced.
    pub open spec fn with_r(self, r: Register, val: u8) -> Registers {
        match r {
            Register::A => Registers { a: val, ..self },
            Register::B => Registers { b: val, ..self },
            Register::C => Registers { c: val, ..self },
            Register::D => Registers { d: val, ..self },
            Register::E => Registers { e: val, ..self },
            Register::H => Registers { h: val, ..self },
            Register::L => Registers { l: val, ..self },
            Register::F => Registers { f: FlagsRegister::from_byte(val), ..self },
            Register::HLDirect => self,
        }
    }

    /// The register file with a 16-bit register replaced: the high byte goes
    /// to the first register of the pair, the low byte to the second.
    pub open spec fn with_rp(self, rp: RegisterPair, nn: u16) -> Registers {
        match rp {
            RegisterPair::AF => Registers {
                a: high_byte(nn),
                f: FlagsRegister::from_byte(low_byte(nn)),
                ..self
            },
            RegisterPair::BC => Registers { b: high_byte(nn), c: low_byte(nn), ..self },
            RegisterPair::DE => Registers { d: high_byte(nn), e: low_byte(nn), ..self },
            RegisterPair::HL => Registers { h: high_byte(nn), l: low_byte(nn), ..self },
            RegisterPair::SP => Registers { sp: nn, ..self },
        }
    }

    /// The register file with new flags.
    pub open spec fn with_flags(self, f: FlagsRegister) -> Registers {
        Registers { f, ..self }
    }

    /// Whether a branch condition holds.
    pub open spec fn spec_cc_match(&self, cc: &Condition) -> bool {
        match cc {
            Condition::NZ => !self.f.zero,
            Condition::Z => self.f.zero,
            Condition::NC => !self.f.carry,
            Condition::C => self.f.carry,
            Condition::Always => true,
        }
    }

    pub fn set_bc(&mut self, nn: u16)
        ensures
            *final(self) == old(self).with_rp(RegisterPair::BC, nn),
    {
        proof {
            lemma_split_word(nn);
        }
        self.b = (nn >> 8) as u8;
        self.c = (nn & 0xFF) as u8;
    }

    pub fn set_de(&mut self, nn: u16)
        ensures
            *final(self) == old(self).with_rp(RegisterPair::DE, nn),
    {
        proof {
            lemma_split_word(nn);
        }
        self.d = (nn >> 8) as u8;
        self.e = (nn & 0xFF) as u8;
    }

    pub fn set_hl(&mut self, nn: u16)
        ensures
            *final(self) == old(self).with_rp(RegisterPair::HL, nn),
    {
        proof {
            lemma_split_word(nn);
        }
        self.h = (nn >> 8) as u8;
        self.l = (nn & 0xFF) as u8;
    }

    pub fn set_af(&mut self, nn: u16)
        ensures
            *final(self) == old(self).with_rp(RegisterPair::AF, nn),
    {
        proof {
            lemma_split_word(nn);
        }
        self.a = (nn >> 8) as u8;
        self.f = FlagsRegister::from((nn & 0xFF) as u8);
    }

    #[verifier::when_used_as_spec(spec_af)]
    pub fn af(&self) -> (r: u16)
        ensures
            r == self.spec_af(),
    {
        let f = u8::from(self.f);
        proof {
            lemma_word_parts(self.a, f);
        }
        (self.a as u16) << 8 | f as u16
    }

    #[verifier::when_used_as_spec(spec_bc)]
    pub fn bc(&self) -> (r: u16)
        ensures
            r == self.spec_bc(),
    {
        proof {
            lemma_word_parts(self.b, self.c);
        }
        (self.b as u16) << 8 | self.c as u16
    }

    #[verifier::when_used_as_spec(spec_de)]
    pub fn de(&self) -> (r: u16)
        ensures
            r == self.spec_de(),
    {
        proof {
            lemma_word_parts(self.d, self.e);
        }
        (self.d as u16) << 8 | self.e as u16
    }

    #[verifier::when_used_as_spec(spec_hl)]
    pub fn hl(&self) -> (r: u16)
        ensures
            r == self.spec_hl(),
    {
        proof {
            lemma_word_parts(self.h, self.l);
        }
        (self.h as u16) << 8 | self.l as u16
    }

    /// Rotating an 8-bit register left (RLC when `through_carry` is false,
    /// RL when it is true), in the accumulator form that clears Z.
    pub open spec fn rotate_left_result(self, r: Register, through_carry: bool) -> Registers {
        let val = self.spec_get_r(&r);
        let carry_in = if through_carry {
            self.f.carry
        } else {
            val >= 128
        };
        self.with_r(r, shl_in(val, carry_in)).with_flags(
            FlagsRegister { zero: false, subtract: false, half_carry: false, carry: val >= 128 },
        )
    }

    /// Rotating an 8-bit register right (RRC when `through_carry` is false,
    /// RR when it is true), in the accumulator form that clears Z.
    pub open spec fn rotate_right_result(self, r: Register, through_carry: bool) -> Registers {
        let val = self.spec_get_r(&r);
        let carry_in = if through_carry {
            self.f.carry
        } else {
            val % 2 == 1
        };
        self.with_r(r, shr_in(val, carry_in)).with_flags(
            FlagsRegister { zero: false, subtract: false, half_carry: false, carry: val % 2 == 1 },
        )
    }

    /// The decimal adjustment of A after a BCD addition or subtraction.
    pub open spec fn daa_result(self) -> Registers {
        let a = self.a as int;
        if self.f.subtract {
            let adj = (if self.f.half_carry {
                0x06int
            } else {
                0
            }) + (if self.f.carry {
                0x60int
            } else {
                0
            });
            let na = ((a - adj + 256) % 256) as u8;
            Registers {
                a: na,
                f: FlagsRegister { zero: na == 0, half_carry: false, ..self.f },
                ..self
            }
        } else {
            let low_fix = self.f.half_carry || a % 16 > 9;
            let high_fix = self.f.carry || a > 0x99;
            let adj = (if low_fix {
                0x06int
            } else {
                0
            }) + (if high_fix {
                0x60int
            } else {
                0
            });
            let na = ((a + adj) % 256) as u8;
            Registers {
                a: na,
                f: FlagsRegister { zero: na == 0, half_carry: false, carry: high_fix, ..self.f },
                ..self
            }
        }
    }

    /// Complementing A (CPL): N and H are set.
    pub open spec fn cpl_result(self) -> Registers {
        Registers {
            a: (255 - self.a) as u8,
            f: FlagsRegister { subtract: true, half_carry: true, ..self.f },
            ..self
        }
    }

    /// Setting the carry flag (SCF).
    pub open spec fn scf_result(self) -> Registers {
        self.with_flags(FlagsRegister { carry: true, subtract: false, half_carry: false, ..self.f })
    }

    /// Complementing the carry flag (CCF).
    pub open spec fn ccf_result(self) -> Registers {
        self.with_flags(
            FlagsRegister { carry: !self.f.carry, subtract: false, half_carry: false, ..self.f },
        )
    }

    /// HL plus a 16-bit register, with N cleared, H from bit 11 and C from
    /// bit 15; Z is left alone.
    pub open spec fn add_hl_result(self, rp: RegisterPair) -> Registers {
        let hl = self.spec_hl() as int;
        let v = self.spec_get_rp(&rp) as int;
        Registers {
            f: FlagsRegister {
                subtract: false,
                carry: hl + v > 0xFFFF,
                half_carry: hl % 4096 + v % 4096 > 0xFFF,
                ..self.f
            },
            ..self
        }.with_rp(RegisterPair::HL, ((hl + v) % 0x10000) as u16)
    }

    pub fn rotate_left(&mut self, r: &Register, through_carry: bool)
        requires
            in_register_file(*r),
        ensures
            *final(self) == old(self).rotate_left_result(*r, through_carry),
    {
        let val = self.get_r(r);
        proof {
            lemma_shl_in(val, 0);
        }
        let bit7 = val >> 7;
        let carry_in = if through_carry {
            if self.f.carry {
                1
            } else {
                0
            }
        } else {
            bit7
        };
        proof {
            lemma_shl_in(val, carry_in);
        }
        let res = (val << 1) | carry_in;
        self.set_r(r, res);
        self.f.carry = bit7 == 1;
        self.f.subtract = false;
        self.f.half_carry = false;
        self.f.zero = false;
    }

    pub fn rotate_right(&mut self, r: &Register, through_carry: bool)
        requires
            in_register_file(*r),
        ensures
            *final(self) == old(self).rotate_right_result(*r, through_carry),
    {
        let val = self.get_r(r);
        proof {
            lemma_shr_in(val, 0);
        }
        let bit0 = val & 1;
        let carry_in = if through_carry {
            if self.f.carry {
                1
            } else {
                0
            }
        } else {
            bit0
        };
        proof {
            lemma_shr_in(val, carry_in);
        }
        let res = (carry_in << 7) | val >> 1;
        self.set_r(r, res);
        self.f.carry = bit0 == 1;
        self.f.subtract = false;
        self.f.half_carry = false;
        self.f.zero = false;
    }

    pub fn daa(&mut self)
        ensures
            *final(self) == old(self).daa_result(),
    {
        let mut adj: u8 = 0;
        let mut carry = self.f.carry;
        proof {
            lemma_low_nibble(self.a);
        }

        if self.f.subtract {
            if self.f.half_carry {
                adj += 0x06;
            }
            if self.f.carry {
                adj += 0x60;
            }
            self.a = self.a.wrapping_sub(adj);
        } else {
            if self.f.half_carry || self.a & 0x0F > 0x09 {
                adj += 0x06;
            }
            if self.f.carry || self.a > 0x99 {
                adj += 0x60;
                carry = true;
            }
            self.a = self.a.wrapping_add(adj);
        }

        self.f.zero = self.a == 0;
        self.f.carry = carry;
        self.f.half_carry = false;
    }

    pub fn cpl(&mut self)
        ensures
            *final(self) == old(self).cpl_result(),
    {
        proof {
            let a = self.a;
            assert(!a == 255 - a) by (bit_vector);
        }
        self.a = !self.a;
        self.f.subtract = true;
        self.f.half_carry = true;
    }

    pub fn scf(&mut self)
        ensures
            *final(self) == old(self).scf_result(),
    {
        self.f.carry = true;
        self.f.subtract = false;
        self.f.half_carry = false;
    }

    pub fn ccf(&mut self)
        ensures
            *final(self) == old(self).ccf_result(),
    {
        self.f.carry = !self.f.carry;
        self.f.subtract = false;
        self.f.half_carry = false;
    }

    pub fn add_hl(&mut self, r2: &RegisterPair)
        ensures
            *final(self) == old(self).add_hl_result(*r2),
    {
        let hl = self.hl();
        let r2_val = self.get_rp(r2);
        let new_value = hl.wrapping_add(r2_val);
        let did_overflow = new_value < hl;
        assert(new_value == (hl + r2_val) % 0x10000);
        assert(did_overflow == (hl + r2_val > 0xFFFF));
        proof {
            lemma_low_nibble_u16(hl);
            lemma_low_nibble_u16(r2_val);
        }
        let half_carry = (hl & 0xFFF) + (r2_val & 0xFFF) > 0xFFF;
        self.f.subtract = false;
        self.f.carry = did_overflow;
        self.f.half_carry = half_carry;
        self.set_hl(new_value);
    }

    pub fn set_rp(&mut self, rp: &RegisterPair, nn: u16)
        ensures
            *final(self) == old(self).with_rp(*rp, nn),
    {
        match rp {
            RegisterPair::BC => self.set_bc(nn),
            RegisterPair::DE => self.set_de(nn),
            RegisterPair::HL => self.set_hl(nn),
            RegisterPair::AF => self.set_af(nn),
            RegisterPair::SP => self.sp = nn,
        }
    }

    pub fn inc_rp(&mut self, rp: &RegisterPair)
        requires
            !(*rp is AF),
        ensures
            *final(self) == old(self).with_rp(
                *rp,
                ((old(self).spec_get_rp(rp) + 1) % 0x10000) as u16,
            ),
    {
        match rp {
            RegisterPair::BC => self.set_bc(self.bc().wrapping_add(1)),
            RegisterPair::DE => self.set_de(self.de().wrapping_add(1)),
            RegisterPair::HL => self.set_hl(self.hl().wrapping_add(1)),
            RegisterPair::SP => self.sp = self.sp.wrapping_add(1),
            RegisterPair::AF => {},
        }
    }

    pub fn dec_rp(&mut self, rp: &RegisterPair)
        requires
            !(*rp is AF),
        ensures
            *final(self) == old(self).with_rp(
                *rp,
                ((old(self).spec_get_rp(rp) + 0xFFFF) % 0x10000) as u16,
            ),
    {
        match rp {
            RegisterPair::BC => self.set_bc(self.bc().wrapping_sub(1)),
            RegisterPair::DE => self.set_de(self.de().wrapping_sub(1)),
            RegisterPair::HL => self.set_hl(self.hl().wrapping_sub(1)),
            RegisterPair::SP => self.sp = self.sp.wrapping_sub(1),
            RegisterPair::AF => {},
        }
    }

    #[verifier::when_used_as_spec(spec_get_rp)]
    pub fn get_rp(&self, rp: &RegisterPair) -> (r: u16)
        ensures
            r == self.spec_get_rp(rp),
    {
        match rp {
            RegisterPair::AF => self.af(),
            RegisterPair::BC => self.bc(),
            RegisterPair::DE => self.de(),
            RegisterPair::HL => self.hl(),
            RegisterPair::SP => self.sp,
        }
    }

    pub fn set_r(&mut self, r: &Register, val: u8)
        requires
            in_register_file(*r),
        ensures
            *final(self) == old(self).with_r(*r, val),
    {
        match r {
            Register::A => self.a = val,
            Register::B => self.b = val,
            Register::C => self.c = val,
            Register::D => self.d = val,
            Register::E => self.e = val,
            Register::H => self.h = val,
            Register::L => self.l = val,
            Register::F => self.f = FlagsRegister::from(val),
            Register::HLDirect => {},
        }
    }

    pub fn inc_r(&mut self, r: &Register)
        requires
            is_data_register(*r),
        ensures
            *final(self) == old(self).with_r(*r, ((old(self).spec_get_r(r) + 1) % 256) as u8),
    {
        match r {
            Register::A => self.a = self.a.wrapping_add(1),
            Register::B => self.b = self.b.wrapping_add(1),
            Register::C => self.c = self.c.wrapping_add(1),
            Register::D => self.d = self.d.wrapping_add(1),
            Register::E => self.e = self.e.wrapping_add(1),
            Register::H => self.h = self.h.wrapping_add(1),
            Register::L => self.l = self.l.wrapping_add(1),
            _ => {},
        }
    }

    pub fn dec_r(&mut self, r: &Register)
        requires
            is_data_register(*r),
        ensures
            *final(self) == old(self).with_r(*r, ((old(self).spec_get_r(r) + 255) % 256) as u8),
    {
        match r {
            Register::A => self.a = self.a.wrapping_sub(1),
            Register::B => self.b = self.b.wrapping_sub(1),
            Register::C => self.c = self.c.wrapping_sub(1),
            Register::D => self.d = self.d.wrapping_sub(1),
            Register::E => self.e = self.e.wrapping_sub(1),
            Register::H => self.h = self.h.wrapping_sub(1),
            Register::L => self.l = self.l.wrapping_sub(1),
            _ => {},
        }
    }

    #[verifier::when_used_as_spec(spec_get_r)]
    pub fn get_r(&self, r: &Register) -> (v: u8)
        requires
            in_register_file(*r),
        ensures
            v == self.spec_get_r(r),
    {
        match r {
            Register::A => self.a,
            Register::B => self.b,
            Register::C => self.c,
            Register::D => self.d,
            Register::E => self.e,
            Register::H => self.h,
            Register::L => self.l,
            Register::F => u8::from(self.f),
            Register::HLDirect => 0,
        }
    }

    #[verifier::when_used_as_spec(spec_cc_match)]
    pub fn cc_match(&self, cc: &Condition) -> (b: bool)
        ensures
            b == self.spec_cc_match(cc),
    {
        match cc {
            Condition::NZ => !self.f.zero,
            Condition::Z => self.f.zero,
            Condition::NC => !self.f.carry,
            Condition::C => self.f.carry,
            Condition::Always => true,
        }
    }
}

/// Reading back a 16-bit register gives what was written to it (for AF,
/// with the low nibble of F cleared).
pub proof fn lemma_get_rp_of_with_rp(regs: Registers, rp: RegisterPair, nn: u16)
    ensures
        regs.with_rp(rp, nn).spec_get_rp(&rp) == if rp is AF {
            (nn / 16 * 16) as u16
        } else {
            nn
        },
{
    crate::bits::lemma_word_roundtrip(nn, 0, 0);
    if rp is AF {
        FlagsRegister::lemma_byte_of_from_byte(low_byte(nn));
    }
}

/// Writing a 16-bit register leaves the other four alone.
pub proof fn lemma_with_rp_other(regs: Registers, rp: RegisterPair, nn: u16, other: RegisterPair)
    requires
        rp != other,
    ensures
        regs.with_rp(rp, nn).spec_get_rp(&other) == regs.spec_get_rp(&other),
{
}

/// Reading back an 8-bit register gives what was written to it (for F, with
/// the low nibble cleared).
pub proof fn lemma_get_r_of_with_r(regs: Registers, r: Register, v: u8)
    requires
        in_register_file(r),
    ensures
        regs.with_r(r, v).spec_get_r(&r) == if r is F {
            v / 16 * 16
        } else {
            v as int
        },
{
    if r is F {
        FlagsRegister::lemma_byte_of_from_byte(v);
    }
}

/// Incrementing and then decrementing a 16-bit register restores the
/// register file.
pub proof fn lemma_inc_dec_rp(regs: Registers, rp: RegisterPair)
    requires
        !(rp is AF),
    ensures
        ({
            let up = regs.with_rp(rp, ((regs.spec_get_rp(&rp) + 1) % 0x10000) as u16);
            up.with_rp(rp, ((up.spec_get_rp(&rp) + 0xFFFF) % 0x10000) as u16)
        }) == regs,
{
    let v = regs.spec_get_rp(&rp);
    let up = regs.with_rp(rp, ((v + 1) % 0x10000) as u16);
    lemma_get_rp_of_with_rp(regs, rp, ((v + 1) % 0x10000) as u16);
    assert(((up.spec_get_rp(&rp) + 0xFFFF) % 0x10000) as u16 == v);
    crate::bits::lemma_word_roundtrip(v, 0, 0);
    crate::bits::lemma_word_roundtrip(regs.spec_bc(), regs.b, regs.c);
    crate::bits::lemma_word_roundtrip(regs.spec_de(), regs.d, regs.e);
    crate::bits::lemma_word_roundtrip(regs.spec_hl(), regs.h, regs.l);
}

/// Incrementing and then decrementing an 8-bit data register restores the
/// register file.
pub proof fn lemma_inc_dec_r(regs: Registers, r: Register)
    requires
        is_data_register(r),
    ensures
        ({
            let up = regs.with_r(r, ((regs.spec_get_r(&r) + 1) % 256) as u8);
            up.with_r(r, ((up.spec_get_r(&r) + 255) % 256) as u8)
        }) == regs,
{
}

/// CPL twice restores A; CCF twice restores the carry.
pub proof fn lemma_cpl_ccf_involutions(regs: Registers)
    ensures
        regs.cpl_result().cpl_result().a == regs.a,
        regs.ccf_result().ccf_result().f.carry == regs.f.carry,
{
}

} // verus!
