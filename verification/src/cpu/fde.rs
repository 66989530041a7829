//! Fetch, decode and execute.

use vstd::prelude::*;
use crate::bits::lemma_word_parts;
use crate::cpu::Cpu;
use crate::cpu::helpers::{af, alu, cc, r, rot, rp, rp2};
use crate::cpu::semantics;
use crate::cpu::helpers::spec_r;
use crate::cpu::semantics::{
    lemma_opcode_fields, op_x, op_y, op_z, decode_ok, run_ok, opcode_supported, fetch_ok, fetch_u16_ok, operand_ok,
};
use crate::memory::{Memory, is_accessible};
use crate::registers::{Condition, Register, RegisterPair};

verus! {

impl Cpu {
    /// One step: nothing while halted, else fetch the opcode at PC and
    /// execute it.
    pub fn run(&mut self, memory: &mut Memory)
        requires
            run_ok(*old(self), old(memory)@),
        ensures
            (*final(self), final(memory)@) == semantics::run_step(*old(self), old(memory)@),
    {
        if self.halted {
            // interrupts are dispatched by the machine, see `GameBoy::run`
        } else {
            let op = self.fetch(memory);
            self.decode(op, memory);
        }
    }

    pub fn fetch(&mut self, memory: &mut Memory) -> (op: u8)
        requires
            fetch_ok(*old(self)),
        ensures
            (*final(self), op) == semantics::fetch(*old(self), old(memory)@),
            final(memory)@ == old(memory)@,
    {
        let op = memory.read(self.pc);
        self.pc = if self.halt_bug {
            self.halt_bug = false;
            self.pc
        } else {
            self.pc.wrapping_add(1)
        };
        op
    }

    fn fetch_u16(&mut self, memory: &mut Memory) -> (nn: u16)
        requires
            fetch_u16_ok(*old(self), old(memory)@),
        ensures
            (*final(self), nn) == semantics::fetch_u16(*old(self), old(memory)@),
            final(memory)@ == old(memory)@,
    {
        let low = self.fetch(memory);
        let high = self.fetch(memory);
        proof {
            lemma_word_parts(high, low);
        }
        (u16::from(high) << 8) | u16::from(low)
    }

    /// Executes the opcode `op`, which has just been fetched.
    pub fn decode(&mut self, op: u8, memory: &mut Memory)
        requires
            decode_ok(*old(self), old(memory)@, op),
        ensures
            (*final(self), final(memory)@) == semantics::step(*old(self), old(memory)@, op),
    {
        if op == 0xCB {
            let n = self.fetch(memory);
            self.decode_cb(n, memory);
            return ;
        }
        proof {
            lemma_opcode_fields(op);
        }
        let x = op >> 6;
        let y = (op >> 3) & 0b111;
        let z = op & 0b111;
        match x {
            0 => self.decode_x0(y, z, memory),
            1 => self.decode_x1(y, z, memory),
            2 => self.alu_op_r(&alu(y), &r(z), memory),
            _ => self.decode_x3(y, z, memory),
        }
    }

    fn decode_x0(&mut self, y: u8, z: u8, memory: &mut Memory)
        requires
            y <= 7,
            z <= 7,
            semantics::step_x0_ok(*old(self), old(memory)@, y, z),
        ensures
            (*final(self), final(memory)@) == semantics::step_x0(*old(self), old(memory)@, y, z),
    {
        proof {
            assert(y >> 1u8 == y / 2) by (bit_vector);
        }
        match z {
            0 => match y {
                0 => {},
                1 => {
                    let nn: u16 = self.fetch_u16(memory);
                    self.ld_nn_sp(nn, memory);
                },
                2 => {
                    self.fetch(memory);
                },
                3 => {
                    let n = #[verifier::truncate] (self.fetch(memory) as i8);
                    self.jr(&Condition::Always, n);
                },
                _ => {
                    let n = #[verifier::truncate] (self.fetch(memory) as i8);
                    self.jr(&cc(y), n);
                },
            },
            1 => {
                let q = y % 2;
                let p = y >> 1;
                match q {
                    0 => {
                        let nn: u16 = self.fetch_u16(memory);
                        self.registers.set_rp(&rp(p), nn);
                    },
                    _ => self.registers.add_hl(&rp(p)),
                }
            },
            2 => {
                let q = y % 2;
                let p = y >> 1;
                let addr = if p == 2 || p == 3 {
                    self.registers.get_rp(&RegisterPair::HL)
                } else {
                    self.registers.get_rp(&rp(p))
                };

                match p {
                    2 => self.registers.inc_rp(&RegisterPair::HL),
                    3 => self.registers.dec_rp(&RegisterPair::HL),
                    _ => {},
                }
                match q {
                    0 => memory.write(addr, self.registers.a),
                    _ => self.registers.a = memory.read(addr),
                }
            },
            3 => {
                let q = y % 2;
                let p = y >> 1;
                match q {
                    0 => self.registers.inc_rp(&rp(p)),
                    _ => self.registers.dec_rp(&rp(p)),
                }
            },
            4 => {
                if y == 6 {
                    let val = memory.read(self.registers.hl());
                    let new_val = val.wrapping_add(1);
                    memory.write(self.registers.hl(), new_val);
                } else {
                    self.inc_r(&r(y), memory);
                }
            },
            5 => {
                if y == 6 {
                    let val = memory.read(self.registers.hl());
                    let new_val = val.wrapping_sub(1);
                    memory.write(self.registers.hl(), new_val);
                } else {
                    self.dec_r(&r(y), memory);
                }
            },
            6 => {
                let n = self.fetch(memory);
                if y == 6 {
                    memory.write(self.registers.hl(), n);
                } else {
                    self.registers.set_r(&r(y), n);
                }
            },
            _ => {
                self.acc_flags(&af(y));
            },
        }
    }

    fn decode_x1(&mut self, y: u8, z: u8, memory: &mut Memory)
        requires
            y <= 7,
            z <= 7,
            semantics::step_x1_ok(*old(self), y, z),
        ensures
            (*final(self), final(memory)@) == semantics::step_x1(*old(self), old(memory)@, y, z),
    {
        if y == 6 && z == 6 {
            self.halt(memory);
        } else if y != 6 && z == 6 {
            self.ld_r_hl(&r(y), memory);
        } else if y == 6 && z != 6 {
            self.ld_hl_r(&r(z), memory);
        } else {
            self.ld_r_r(&r(y), &r(z));
        }
    }

    fn decode_x3(&mut self, y: u8, z: u8, memory: &mut Memory)
        requires
            y <= 7,
            z <= 7,
            z == 0 ==> y >= 4,
            z == 2 ==> y >= 4,
            z == 3 ==> (y == 0 || y == 6 || y == 7),
            z != 4,
            z == 5 ==> (y % 2 == 0 || y == 1),
            semantics::step_x3_ok(*old(self), old(memory)@, y, z),
        ensures
            (*final(self), final(memory)@) == semantics::step_x3(*old(self), old(memory)@, y, z),
    {
        proof {
            assert(y >> 1u8 == y / 2) by (bit_vector);
        }
        match z {
            0 => match y {
                0..=3 => {
                    self.ret(&cc(y), memory);
                },
                4 => {
                    let n = self.fetch(memory);
                    self.ld_addr_r(0xFF00 + u16::from(n), &Register::A, memory);
                },
                5 => {
                    let d = #[verifier::truncate] (self.fetch(memory) as i8);
                    self.add_sp_d(d);
                },
                6 => {
                    let n = self.fetch(memory);
                    self.ld_r_addr(&Register::A, 0xFF00 + u16::from(n), memory);
                },
                _ => {
                    let d = #[verifier::truncate] (self.fetch(memory) as i8);
                    self.ld_hl_sp_d(d);
                },
            },
            1 => {
                let q = y % 2;
                let p = y >> 1;

                if q == 0 {
                    self.pop_rp2(&rp2(p), memory);
                } else {
                    match p {
                        0 => {
                            self.ret(&Condition::Always, memory);
                        },
                        1 => {
                            self.reti(memory);
                        },
                        2 => {
                            let nn = self.registers.hl();
                            self.jp(&Condition::Always, nn);
                        },
                        _ => {
                            self.registers.sp = self.registers.hl();
                        },
                    }
                }
            },
            2 => match y {
                0..=3 => {
                    let nn = self.fetch_u16(memory);
                    self.jp(&cc(y), nn);
                },
                4 => {
                    let addr = 0xFF00 + u16::from(self.registers.c);
                    self.ld_addr_r(addr, &Register::A, memory);
                },
                5 => {
                    let nn = self.fetch_u16(memory);
                    self.ld_nn_r(nn, &Register::A, memory);
                },
                6 => {
                    let addr = 0xFF00 + u16::from(self.registers.c);
                    self.ld_r_addr(&Register::A, addr, memory);
                },
                _ => {
                    let nn = self.fetch_u16(memory);
                    self.ld_r_nn(&Register::A, nn, memory);
                },
            },
            3 => match y {
                0 => {
                    let nn = self.fetch_u16(memory);
                    self.jp(&Condition::Always, nn);
                },
                6 => self.di(),
                _ => self.ei(),
            },
            4 => {
                let nn = self.fetch_u16(memory);
                self.call(&cc(y), nn, memory);
            },
            5 => {
                let q = y % 2;
                let p = y >> 1;

                if q == 0 {
                    self.push_rp2(&rp2(p), memory);
                } else {
                    let nn = self.fetch_u16(memory);
                    self.call(&Condition::Always, nn, memory);
                }
            },
            6 => {
                let n = self.fetch(memory);
                self.alu_op_n(&alu(y), n);
            },
            _ => self.rst(y, memory),
        }
    }

    fn decode_cb(&mut self, n: u8, memory: &mut Memory)
        requires
            operand_ok(*old(self), spec_r(op_z(n))),
        ensures
            (*final(self), final(memory)@) == semantics::cb_step(*old(self), old(memory)@, n),
    {
        proof {
            lemma_opcode_fields(n);
        }
        let x = n >> 6;
        let y = (n >> 3) & 0b111;
        let z = n & 0b111;
        match x {
            0 => self.rot_table(&rot(y, z), memory),
            1 => self.bit(y, &r(z), memory),
            2 => self.res(y, &r(z), memory),
            _ => self.set(y, &r(z), memory),
        }
    }
}

impl Cpu {
    /// Whether `run` can be called: the CPU is halted, or the opcode at PC
    /// can be fetched and is one it carries out in this state.
    pub fn can_run(&self, memory: &Memory) -> (ok: bool)
        ensures
            ok == run_ok(*self, memory@),
    {
        if self.halted {
            return true;
        }
        if !is_accessible(self.pc) {
            return false;
        }
        let op = memory.read(self.pc);
        let mut fetched = *self;
        fetched.pc = if self.halt_bug {
            self.pc
        } else {
            self.pc.wrapping_add(1)
        };
        fetched.halt_bug = false;
        fetched.can_decode(op, memory)
    }

    /// Whether `decode` can be called with `op` in this state.
    fn can_decode(&self, op: u8, memory: &Memory) -> (ok: bool)
        ensures
            ok == decode_ok(*self, memory@, op),
    {
        if !is_supported_opcode(op) {
            return false;
        }
        proof {
            lemma_opcode_fields(op);
            let y = op_y(op);
            assert(y >> 1u8 == y / 2) by (bit_vector);
        }
        let pc = self.pc;
        let pc1 = if self.halt_bug {
            pc
        } else {
            pc.wrapping_add(1)
        };
        let fetch_ok = is_accessible(pc);
        let fetch_u16_ok = fetch_ok && is_accessible(pc1);
        let hl = self.registers.hl();
        let hl_ok = is_accessible(hl);
        let sp = self.registers.sp;
        let pop_ok = is_accessible(sp) && is_accessible(sp.wrapping_add(1));
        let push_ok = is_accessible(sp.wrapping_sub(1)) && is_accessible(sp.wrapping_sub(2));
        if op == 0xCB {
            if !fetch_ok {
                return false;
            }
            let n = memory.read(pc);
            proof {
                lemma_opcode_fields(n);
            }
            return n & 0b111 != 6 || hl_ok;
        }
        let x = op >> 6;
        let y = (op >> 3) & 0b111;
        let z = op & 0b111;
        let p = y >> 1;
        let q = y % 2;
        if x == 0 {
            if z == 0 {
                if y == 0 {
                    true
                } else if y == 1 {
                    if !fetch_u16_ok {
                        false
                    } else {
                        let low = memory.read(pc);
                        let high = memory.read(pc1);
                        proof {
                            lemma_word_parts(high, low);
                        }
                        let nn = (u16::from(high) << 8) | u16::from(low);
                        nn != 0xFFFF && is_accessible(nn) && is_accessible(nn + 1)
                    }
                } else {
                    fetch_ok
                }
            } else if z == 1 {
                q != 0 || fetch_u16_ok
            } else if z == 2 {
                if p == 2 || p == 3 {
                    hl_ok
                } else {
                    is_accessible(self.registers.get_rp(&rp(p)))
                }
            } else if z == 4 || z == 5 {
                y != 6 || hl_ok
            } else if z == 6 {
                fetch_ok && (y != 6 || hl_ok)
            } else {
                true
            }
        } else if x == 1 {
            !((y == 6 || z == 6) && !(y == 6 && z == 6)) || hl_ok
        } else if x == 2 {
            z != 6 || hl_ok
        } else {
            if z == 0 || z == 6 {
                fetch_ok
            } else if z == 1 {
                !(q == 0 || p <= 1) || pop_ok
            } else if z == 2 {
                if y == 5 || y == 7 {
                    if !fetch_u16_ok {
                        false
                    } else {
                        let low = memory.read(pc);
                        let high = memory.read(pc1);
                        proof {
                            lemma_word_parts(high, low);
                        }
                        is_accessible((u16::from(high) << 8) | u16::from(low))
                    }
                } else {
                    true
                }
            } else if z == 3 {
                y != 0 || fetch_u16_ok
            } else if z == 5 {
                push_ok && (q != 1 || fetch_u16_ok)
            } else if z == 7 {
                push_ok
            } else {
                true
            }
        }
    }
}

/// Whether the decoder carries out `op` (see `opcode_supported`).
pub fn is_supported_opcode(op: u8) -> (ok: bool)
    ensures
        ok == opcode_supported(op),
{
    let x = op >> 6;
    let y = (op >> 3) & 0b111;
    let z = op & 0b111;
    proof {
        lemma_opcode_fields(op);
    }
    if op == 0xCB || x != 3 {
        true
    } else {
        (z != 0 || y >= 4) && (z != 2 || y >= 4) && (z != 3 || y == 0 || y == 6 || y == 7) && z
            != 4 && (z != 5 || y % 2 == 0 || y == 1)
    }
}

} // verus!
