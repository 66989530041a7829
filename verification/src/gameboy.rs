//! The whole machine: a CPU and its memory, stepped one instruction at a
//! time with interrupt dispatch in front.

use vstd::prelude::*;
use crate::bits::{high_byte, low_byte};
use crate::cpu::Cpu;
use crate::cpu::laws::below;
use crate::cpu::semantics::{push, push_ok, pop_value, pop_cpu, run_ok, run_step};
use crate::memory::{Memory, written, power_on_memory, mapped, accessible, is_accessible};

verus! {

/// The interrupt served first among the pending ones in `pending`: bit 0
/// (VBlank) has the highest priority, bit 4 (joypad) the lowest. 5 when none
/// of bits 0 to 4 is set.
pub open spec fn first_interrupt(pending: u8) -> u8 {
    if pending & (1u8 << 0u8) != 0 {
        0
    } else if pending & (1u8 << 1u8) != 0 {
        1
    } else if pending & (1u8 << 2u8) != 0 {
        2
    } else if pending & (1u8 << 3u8) != 0 {
        3
    } else if pending & (1u8 << 4u8) != 0 {
        4
    } else {
        5
    }
}

/// Interrupt dispatch. An interrupt is pending when it is both enabled
/// (0xFFFF) and requested (0xFF0F); any pending interrupt wakes a halted
/// CPU. With IME set, the first pending one among bits 0 to 4 is served:
/// IME is cleared, PC is pushed, the request bit is cleared and PC jumps to
/// 0x40 + 8 * bit.
pub open spec fn interrupt_step(c: Cpu, m: Seq<u8>) -> (Cpu, Seq<u8>) {
    let pending = m[0xFFFF] & m[0xFF0F];
    if pending == 0 {
        (c, m)
    } else {
        let c1 = Cpu { halted: false, ..c };
        let i = first_interrupt(pending);
        if !c.ime || i == 5 {
            (c1, m)
        } else {
            let current_if = m[0xFF0F];
            let (c2, m2) = push(Cpu { ime: false, ..c1 }, m, c1.pc);
            (
                c2.with_pc((0x40 + 8 * i) as u16),
                written(m2, 0xFF0F, current_if & !(1u8 << i)),
            )
        }
    }
}

/// One step of the machine: interrupt dispatch, then a CPU step.
pub open spec fn machine_step(c: Cpu, m: Seq<u8>) -> (Cpu, Seq<u8>) {
    let (c1, m1) = interrupt_step(c, m);
    run_step(c1, m1)
}

/// Whether interrupt dispatch runs to completion: when an interrupt is
/// served, the two stack bytes it pushes to must be accessible.
pub open spec fn interrupt_ok(c: Cpu, m: Seq<u8>) -> bool {
    let pending = m[0xFFFF] & m[0xFF0F];
    pending != 0 && c.ime && first_interrupt(pending) < 5 ==> push_ok(c)
}

/// Whether the machine can take its next step.
pub open spec fn machine_ok(c: Cpu, m: Seq<u8>) -> bool {
    let (c1, m1) = interrupt_step(c, m);
    interrupt_ok(c, m) && run_ok(c1, m1)
}

/// The interrupt served is pending, and every interrupt of higher priority
/// is not.
pub proof fn lemma_first_interrupt(pending: u8)
    ensures
        first_interrupt(pending) <= 5,
        first_interrupt(pending) < 5 ==> pending & (1u8 << first_interrupt(pending)) != 0,
        forall|j: u8| j < first_interrupt(pending) ==> pending & #[trigger] (1u8 << j) == 0,
        first_interrupt(pending) == 5 ==> pending % 32 == 0,
{
    let i = first_interrupt(pending);
    assert forall|j: u8| j < i implies pending & #[trigger] (1u8 << j) == 0 by {
        if j == 0 {
        } else if j == 1 {
        } else if j == 2 {
        } else if j == 3 {
        } else {
            assert(j == 4);
        }
    }
    if i == 5 {
        assert(pending % 32 == 0) by (bit_vector)
            requires
                pending & (1u8 << 0u8) == 0,
                pending & (1u8 << 1u8) == 0,
                pending & (1u8 << 2u8) == 0,
                pending & (1u8 << 3u8) == 0,
                pending & (1u8 << 4u8) == 0,
        ;
    }
}

/// Serving an interrupt clears IME and the halt, jumps to the interrupt's
/// vector, leaves the return address on top of the stack and clears the
/// request bit, provided the two stack bytes are mapped, accessible and
/// not the request register.
pub proof fn lemma_interrupt_service(c: Cpu, m: Seq<u8>)
    requires
        m.len() == 0x10000,
        c.ime,
        first_interrupt(m[0xFFFF] & m[0xFF0F]) < 5,
        mapped(below(c.registers.sp)),
        mapped(below(below(c.registers.sp))),
        accessible(below(c.registers.sp)),
        accessible(below(below(c.registers.sp))),
        below(c.registers.sp) != 0xFF0F,
        below(below(c.registers.sp)) != 0xFF0F,
    ensures
        ({
            let i = first_interrupt(m[0xFFFF] & m[0xFF0F]);
            let (c1, m1) = interrupt_step(c, m);
            &&& c1.pc == 0x40 + 8 * i
            &&& !c1.ime
            &&& !c1.halted
            &&& pop_value(c1, m1) == c.pc
            &&& pop_cpu(c1).registers.sp == c.registers.sp
            &&& m1[0xFF0F] == m[0xFF0F] & !(1u8 << i)
        }),
{
    let pending = m[0xFFFF] & m[0xFF0F];
    lemma_first_interrupt(pending);
    assert(pending != 0) by (bit_vector)
        requires
            pending % 32 != 0 || pending & (1u8 << first_interrupt(pending)) != 0,
    ;
    let c1 = Cpu { halted: false, ime: false, ..c };
    crate::cpu::laws::lemma_pop_after_push(c1, m, c.pc);
}

/// A halted CPU with no pending interrupt stays as it is.
pub proof fn lemma_halted_idle(c: Cpu, m: Seq<u8>)
    requires
        c.halted,
        m[0xFFFF] & m[0xFF0F] == 0,
    ensures
        machine_step(c, m) == (c, m),
        machine_ok(c, m),
{
}

/// Any pending interrupt wakes a halted CPU, whether or not IME is set.
pub proof fn lemma_pending_wakes(c: Cpu, m: Seq<u8>)
    requires
        m[0xFFFF] & m[0xFF0F] != 0,
    ensures
        !interrupt_step(c, m).0.halted,
{
}

/// The interrupt served first among the pending ones (see
/// `first_interrupt`).
fn first_pending(pending: u8) -> (i: u8)
    ensures
        i == first_interrupt(pending),
{
    if pending & (1 << 0) != 0 {
        0
    } else if pending & (1 << 1) != 0 {
        1
    } else if pending & (1 << 2) != 0 {
        2
    } else if pending & (1 << 3) != 0 {
        3
    } else if pending & (1 << 4) != 0 {
        4
    } else {
        5
    }
}

fn service_interrupts(cpu: &mut Cpu, memory: &mut Memory)
    requires
        interrupt_ok(*old(cpu), old(memory)@),
    ensures
        (*final(cpu), final(memory)@) == interrupt_step(*old(cpu), old(memory)@),
{
    let pending = memory.read(0xFFFF) & memory.read(0xFF0F);
    if pending != 0 {
        cpu.halted = false;
        let ghost c1 = *cpu;
        let ghost m1 = memory@;
        let mut bit: u8 = 0;
        while bit < 5
            invariant_except_break
                bit <= 5,
                *cpu == c1,
                memory@ == m1,
                c1.ime ==> first_interrupt(pending) >= bit,
            invariant
                c1 == (Cpu { halted: false, ..*old(cpu) }),
                m1 == old(memory)@,
                pending == m1[0xFFFF] & m1[0xFF0F],
                pending != 0,
                interrupt_ok(*old(cpu), old(memory)@),
            ensures
                (*cpu, memory@) == interrupt_step(*old(cpu), old(memory)@),
            decreases 5 - bit,
        {
            if cpu.ime {
                if pending & (1 << bit) != 0 {
                    assert(first_interrupt(pending) == bit);
                    let current_if = memory.read(0xFF0F);
                    cpu.ime = false;
                    let pc = cpu.pc;
                    cpu.push(pc, memory);
                    memory.write(0xFF0F, current_if & !(1 << bit));
                    cpu.pc = 0x0040 + (8 * u16::from(bit));
                    break ;
                }
            }
            bit += 1;
        }
    }
}

pub struct GameBoy {
    cpu: Cpu,
    memory: Memory,
}

impl GameBoy {
    /// The CPU's state.
    pub closed spec fn cpu_state(&self) -> Cpu {
        self.cpu
    }

    /// The memory model.
    pub closed spec fn memory_state(&self) -> Seq<u8> {
        self.memory@
    }
}

impl Default for GameBoy {
    fn default() -> (g: Self)
        ensures
            g.cpu_state().pc == 0x0100,
            g.cpu_state().registers.sp == 0xFFFE,
            g.cpu_state().registers.a == 0x01,
            g.cpu_state().registers.f.byte() == 0xB0,
            g.cpu_state().registers.b == 0x00,
            g.cpu_state().registers.c == 0x13,
            g.cpu_state().registers.d == 0x00,
            g.cpu_state().registers.e == 0xD8,
            g.cpu_state().registers.h == 0x01,
            g.cpu_state().registers.l == 0x4D,
            !g.cpu_state().halted,
            !g.cpu_state().halt_bug,
            !g.cpu_state().ime,
            g.memory_state() == power_on_memory(),
    {
        Self { cpu: Cpu::default(), memory: Memory::default() }
    }
}

impl GameBoy {
    /// A machine in a given state.
    pub fn new(cpu: Cpu, memory: Memory) -> (g: Self)
        ensures
            g.cpu_state() == cpu,
            g.memory_state() == memory@,
    {
        Self { cpu, memory }
    }

    pub fn cpu(&self) -> (c: &Cpu)
        ensures
            *c == self.cpu_state(),
    {
        &self.cpu
    }

    pub fn memory(&self) -> (m: &Memory)
        ensures
            m@ == self.memory_state(),
    {
        &self.memory
    }

    /// Whether `run` can be called: interrupt dispatch runs to completion,
    /// and after it the CPU is halted or the opcode at PC can be fetched and
    /// carried out. The check dispatches interrupts in place and then puts
    /// back the CPU and the (at most three) bytes that dispatch wrote, so the
    /// machine is left as it was.
    pub fn can_run(&mut self) -> (ok: bool)
        ensures
            ok == machine_ok(old(self).cpu_state(), old(self).memory_state()),
            final(self).cpu_state() == old(self).cpu_state(),
            final(self).memory_state() == old(self).memory_state(),
    {
        let ghost m0 = self.memory@;
        proof {
            self.memory.lemma_len();
        }
        let pending = self.memory.read(0xFFFF) & self.memory.read(0xFF0F);
        let serving = pending != 0 && self.cpu.ime && first_pending(pending) < 5;
        let sp = self.cpu.registers.sp;
        let high_addr = sp.wrapping_sub(1);
        let low_addr = sp.wrapping_sub(2);
        if serving && !(is_accessible(high_addr) && is_accessible(low_addr)) {
            return false;
        }
        let saved_cpu = self.cpu;
        let saved_if = self.memory.read(0xFF0F);
        let saved_high = if serving {
            self.memory.read(high_addr)
        } else {
            0
        };
        let saved_low = if serving {
            self.memory.read(low_addr)
        } else {
            0
        };
        service_interrupts(&mut self.cpu, &mut self.memory);
        let ok = self.cpu.can_run(&self.memory);
        proof {
            if serving {
                let pc = saved_cpu.pc;
                let i = first_interrupt(pending);
                let m1 = written(m0, high_addr, high_byte(pc));
                let m2 = written(m1, low_addr, low_byte(pc));
                let m3 = written(m2, 0xFF0F, saved_if & !(1u8 << i));
                assert(self.memory@ == m3);
                let m6 = written(
                    written(written(m3, 0xFF0F, saved_if), low_addr, saved_low),
                    high_addr,
                    saved_high,
                );
                assert forall|k: int| 0 <= k < 0x10000 implies m6[k] == m0[k] by {
                    if k == high_addr as int || k == low_addr as int || k == 0xFF0F {
                    }
                }
                assert(m6 =~= m0);
            }
        }
        if serving {
            self.memory.write(0xFF0F, saved_if);
            self.memory.write(low_addr, saved_low);
            self.memory.write(high_addr, saved_high);
            assert(self.memory@ =~= m0);
        }
        self.cpu = saved_cpu;
        ok
    }

    /// One step: interrupt dispatch, then (unless halted) one instruction.
    pub fn run(&mut self)
        requires
            machine_ok(old(self).cpu_state(), old(self).memory_state()),
        ensures
            (final(self).cpu_state(), final(self).memory_state()) == machine_step(
                old(self).cpu_state(),
                old(self).memory_state(),
            ),
    {
        service_interrupts(&mut self.cpu, &mut self.memory);
        if !self.cpu.halted {
            let op = self.cpu.fetch(&mut self.memory);
            self.cpu.decode(op, &mut self.memory);
        }
    }
}

} // verus!
