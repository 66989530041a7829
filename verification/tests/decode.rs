use gameboy::cpu::helpers::{alu, cc, r, rot, rp, rp2};
use gameboy::cpu::{Alu, CBRot, Cpu};
use gameboy::cpu::fde::is_supported_opcode;
use gameboy::memory::Memory;
use gameboy::registers::{Condition, Register, RegisterPair};

fn load(program: &[u8]) -> (Cpu, Memory) {
    let mut cpu = Cpu::default();
    let mut mem = Memory::default();
    for (i, b) in program.iter().enumerate() {
        mem.write(0xC000 + i as u16, *b);
    }
    cpu.pc = 0xC000;
    (cpu, mem)
}

fn step(cpu: &mut Cpu, mem: &mut Memory) {
    assert!(cpu.can_run(mem));
    cpu.run(mem);
}

#[test]
fn operand_tables() {
    assert!(matches!(rp(3), RegisterPair::SP));
    assert!(matches!(rp2(3), RegisterPair::AF));
    assert!(matches!(r(6), Register::HLDirect));
    assert!(matches!(r(7), Register::A));
    assert!(matches!(cc(4), Condition::NZ));
    assert!(matches!(cc(7), Condition::C));
    assert!(matches!(alu(7), Alu::Cp));
    assert!(matches!(rot(6, 1), CBRot::Swap(Register::C)));
}

#[test]
fn supported_opcodes() {
    assert!(is_supported_opcode(0x00));
    assert!(is_supported_opcode(0xCB));
    assert!(is_supported_opcode(0xC9));
    assert!(is_supported_opcode(0xCD));
    assert!(!is_supported_opcode(0xC0));
    assert!(!is_supported_opcode(0xC2));
    assert!(!is_supported_opcode(0xC4));
    assert!(!is_supported_opcode(0xD3));
    assert!(!is_supported_opcode(0xDD));
    assert!(is_supported_opcode(0xF3));
}

#[test]
fn nop_and_immediate_load() {
    let (mut cpu, mut mem) = load(&[0x00, 0x3E, 0x42, 0x01, 0x34, 0x12]);
    step(&mut cpu, &mut mem);
    assert_eq!(cpu.pc, 0xC001);
    step(&mut cpu, &mut mem);
    assert_eq!(cpu.registers.a, 0x42);
    assert_eq!(cpu.pc, 0xC003);
    step(&mut cpu, &mut mem);
    assert_eq!(cpu.registers.bc(), 0x1234);
    assert_eq!(cpu.pc, 0xC006);
}

#[test]
fn call_push_pop_ret_program() {
    // CALL C010; at C010: PUSH BC; POP DE; RET
    let mut prog = vec![0u8; 0x14];
    prog[0] = 0xCD;
    prog[1] = 0x10;
    prog[2] = 0xC0;
    prog[0x10] = 0xC5;
    prog[0x11] = 0xD1;
    prog[0x12] = 0xC9;
    let (mut cpu, mut mem) = load(&prog);
    cpu.registers.sp = 0xD000;
    step(&mut cpu, &mut mem);
    assert_eq!(cpu.pc, 0xC010);
    assert_eq!(cpu.registers.sp, 0xCFFE);
    step(&mut cpu, &mut mem);
    step(&mut cpu, &mut mem);
    assert_eq!(cpu.registers.de(), cpu.registers.bc());
    step(&mut cpu, &mut mem);
    assert_eq!(cpu.pc, 0xC003);
    assert_eq!(cpu.registers.sp, 0xD000);
}

#[test]
fn cb_prefix_and_hl_increment_store() {
    // LD A,F1; SWAP A; LD HL,C100; LD (HL+),A; INC (HL)
    let (mut cpu, mut mem) = load(&[0x3E, 0xF1, 0xCB, 0x37, 0x21, 0x00, 0xC1, 0x22, 0x34]);
    for _ in 0..5 {
        step(&mut cpu, &mut mem);
    }
    assert_eq!(mem.read(0xC100), 0x1F);
    assert_eq!(cpu.registers.hl(), 0xC101);
    assert_eq!(mem.read(0xC101), 0x01);
    assert_eq!(cpu.pc, 0xC009);
}

#[test]
fn ld_nn_sp_opcode() {
    let (mut cpu, mut mem) = load(&[0x08, 0x00, 0xC2]);
    cpu.registers.sp = 0x1357;
    step(&mut cpu, &mut mem);
    assert_eq!(mem.read(0xC200), 0x57);
    assert_eq!(mem.read(0xC201), 0x13);
    let (cpu, mem) = load(&[0x08, 0xFF, 0xFF]);
    assert!(!cpu.can_run(&mem));
}

#[test]
fn relative_jump_and_io_page() {
    // JR NZ,+2 (taken: Z clear); ...; LDH (10),A
    let (mut cpu, mut mem) = load(&[0x20, 0x02, 0x00, 0x00, 0xE0, 0x80]);
    cpu.registers.f.zero = false;
    cpu.registers.a = 0x99;
    step(&mut cpu, &mut mem);
    assert_eq!(cpu.pc, 0xC004);
    step(&mut cpu, &mut mem);
    assert_eq!(mem.read(0xFF80), 0x99);
}

#[test]
fn halted_cpu_does_nothing() {
    let (mut cpu, mut mem) = load(&[0x3C]);
    cpu.halted = true;
    step(&mut cpu, &mut mem);
    assert_eq!(cpu.pc, 0xC000);
    assert_eq!(cpu.registers.a, 0x01);
}

#[test]
fn decode_halt_opcode() {
    let (mut cpu, mut mem) = load(&[0x76]);
    mem.write(0xFFFF, 0x00);
    step(&mut cpu, &mut mem);
    assert!(cpu.halted);
    let op = 0xAF; // XOR A
    cpu.decode(op, &mut mem);
    assert_eq!(cpu.registers.a, 0);
    assert!(cpu.registers.f.zero);
}

#[test]
fn cb_table_fetches_one_byte() {
    // BIT 7,(HL) with HL = C100 holding 0x80; then RES 7,(HL); SET 0,B
    let (mut cpu, mut mem) = load(&[0xCB, 0x7E, 0xCB, 0xBE, 0xCB, 0xC0]);
    cpu.registers.set_hl(0xC100);
    mem.write(0xC100, 0x80);
    step(&mut cpu, &mut mem);
    assert_eq!(cpu.pc, 0xC002);
    assert!(!cpu.registers.f.zero);
    step(&mut cpu, &mut mem);
    assert_eq!(mem.read(0xC100), 0x00);
    step(&mut cpu, &mut mem);
    assert_eq!(cpu.registers.b, 0x01);
    assert_eq!(cpu.pc, 0xC006);
}

#[test]
fn echo_range_accesses_are_refused() {
    let (mut cpu, mem) = load(&[0x7E]); // LD A,(HL)
    cpu.registers.set_hl(0xE000);
    assert!(!cpu.can_run(&mem));
    cpu.registers.set_hl(0xC000);
    assert!(cpu.can_run(&mem));
    cpu.pc = 0xE100;
    assert!(!cpu.can_run(&mem));
    cpu.halted = true;
    assert!(cpu.can_run(&mem));
}
