use gameboy::cpu::{AccFlag, Alu, CBRot, Cpu};
use gameboy::memory::Memory;
use gameboy::registers::{Condition, FlagsRegister, Register, RegisterPair};

fn setup() -> (Cpu, Memory) {
    let mut cpu = Cpu::default();
    cpu.registers.f = FlagsRegister::from(0);
    cpu.registers.set_hl(0xC000);
    (cpu, Memory::default())
}

fn flags(cpu: &Cpu) -> (bool, bool, bool, bool) {
    let f = cpu.registers.f;
    (f.zero, f.subtract, f.half_carry, f.carry)
}

#[test]
fn add_and_adc() {
    let (mut cpu, _) = setup();
    cpu.registers.a = 0x3A;
    cpu.add_a_n(0xC6);
    assert_eq!(cpu.registers.a, 0x00);
    assert_eq!(flags(&cpu), (true, false, true, true));
    cpu.registers.a = 0x0F;
    cpu.adc_a_n(0x00);
    assert_eq!(cpu.registers.a, 0x10);
    assert_eq!(flags(&cpu), (false, false, true, false));
    cpu.registers.f.carry = true;
    cpu.registers.a = 0xFF;
    cpu.adc_a_n(0x00);
    assert_eq!(cpu.registers.a, 0x00);
    assert_eq!(flags(&cpu), (true, false, true, true));
}

#[test]
fn sub_sbc_cp() {
    let (mut cpu, _) = setup();
    cpu.registers.a = 0x3E;
    cpu.sub_n(0x3E);
    assert_eq!(cpu.registers.a, 0);
    assert_eq!(flags(&cpu), (true, true, false, false));
    cpu.registers.a = 0x3E;
    cpu.sub_n(0x40);
    assert_eq!(cpu.registers.a, 0xFE);
    assert_eq!(flags(&cpu), (false, true, false, true));
    cpu.registers.a = 0x3B;
    cpu.registers.f.carry = true;
    cpu.sbc_n(0x2A);
    assert_eq!(cpu.registers.a, 0x10);
    assert_eq!(flags(&cpu), (false, true, false, false));
    cpu.registers.a = 0x00;
    cpu.registers.f.carry = true;
    cpu.sbc_n(0x00);
    assert_eq!(cpu.registers.a, 0xFF);
    assert_eq!(flags(&cpu), (false, true, true, true));
    cpu.registers.a = 0x3C;
    cpu.cp_n(0x2F);
    assert_eq!(cpu.registers.a, 0x3C);
    assert_eq!(flags(&cpu), (false, true, true, false));
}

#[test]
fn sub_undoes_add() {
    let (mut cpu, _) = setup();
    for a in [0u8, 1, 0x7F, 0x80, 0xFF] {
        for n in [0u8, 1, 0x10, 0xF0, 0xFF] {
            cpu.registers.a = a;
            cpu.add_a_n(n);
            cpu.sub_n(n);
            assert_eq!(cpu.registers.a, a);
        }
    }
}

#[test]
fn logic_ops() {
    let (mut cpu, _) = setup();
    cpu.registers.a = 0x5A;
    cpu.and_n(0x3F);
    assert_eq!(cpu.registers.a, 0x1A);
    assert_eq!(flags(&cpu), (false, false, true, false));
    cpu.or_n(0x00);
    assert_eq!(cpu.registers.a, 0x1A);
    assert_eq!(flags(&cpu), (false, false, false, false));
    cpu.xor_n(0x1A);
    assert_eq!(cpu.registers.a, 0);
    assert_eq!(flags(&cpu), (true, false, false, false));
}

#[test]
fn alu_dispatch_reads_hl() {
    let (mut cpu, mut mem) = setup();
    mem.write(0xC000, 0x05);
    cpu.registers.a = 0x03;
    cpu.alu_op_r(&Alu::Add, &Register::HLDirect, &mut mem);
    assert_eq!(cpu.registers.a, 0x08);
    cpu.registers.b = 0x08;
    cpu.alu_op_r(&Alu::Cp, &Register::B, &mut mem);
    assert!(cpu.registers.f.zero);
    cpu.alu_op_n(&Alu::Or, 0xF0);
    assert_eq!(cpu.registers.a, 0xF8);
}

#[test]
fn inc_dec_operands() {
    let (mut cpu, mut mem) = setup();
    cpu.registers.f.carry = true;
    cpu.registers.b = 0x0F;
    cpu.inc_r(&Register::B, &mut mem);
    assert_eq!(cpu.registers.b, 0x10);
    assert_eq!(flags(&cpu), (false, false, true, true));
    cpu.dec_r(&Register::B, &mut mem);
    assert_eq!(cpu.registers.b, 0x0F);
    assert_eq!(flags(&cpu), (false, true, true, true));
    mem.write(0xC000, 0x01);
    cpu.dec_r(&Register::HLDirect, &mut mem);
    assert_eq!(mem.read(0xC000), 0x00);
    assert_eq!(flags(&cpu), (true, true, false, true));
    cpu.inc_r(&Register::HLDirect, &mut mem);
    assert_eq!(mem.read(0xC000), 0x01);
    assert_eq!(flags(&cpu), (false, false, false, true));
}

#[test]
fn rotates_on_memory_and_registers() {
    let (mut cpu, mut mem) = setup();
    mem.write(0xC000, 0x85);
    cpu.rotate_left(&Register::HLDirect, false, &mut mem);
    assert_eq!(mem.read(0xC000), 0x0B);
    assert_eq!(flags(&cpu), (false, false, false, true));
    cpu.rotate_right(&Register::HLDirect, false, &mut mem);
    assert_eq!(mem.read(0xC000), 0x85);
    cpu.registers.f.carry = false;
    cpu.registers.e = 0x80;
    cpu.rotate_left(&Register::E, true, &mut mem);
    assert_eq!(cpu.registers.e, 0x00);
    assert_eq!(flags(&cpu), (true, false, false, true));
    cpu.rotate_right(&Register::E, true, &mut mem);
    assert_eq!(cpu.registers.e, 0x80);
    assert!(!cpu.registers.f.carry);
}

#[test]
fn accumulator_rotates_clear_zero() {
    let (mut cpu, _) = setup();
    cpu.registers.a = 0x80;
    cpu.rotate_left_a(true);
    assert_eq!(cpu.registers.a, 0x00);
    assert_eq!(flags(&cpu), (false, false, false, true));
    cpu.rotate_right_a(true);
    assert_eq!(cpu.registers.a, 0x80);
    assert!(!cpu.registers.f.carry);
    cpu.acc_flags(&AccFlag::Rrca);
    assert_eq!(cpu.registers.a, 0x40);
    cpu.acc_flags(&AccFlag::Scf);
    assert!(cpu.registers.f.carry);
    cpu.acc_flags(&AccFlag::Cpl);
    assert_eq!(cpu.registers.a, 0xBF);
}

#[test]
fn shifts_and_swap() {
    let (mut cpu, mut mem) = setup();
    cpu.registers.d = 0x81;
    cpu.sla(&Register::D, &mut mem);
    assert_eq!(cpu.registers.d, 0x02);
    assert_eq!(flags(&cpu), (false, false, false, true));
    cpu.registers.d = 0x81;
    cpu.sra(&Register::D, &mut mem);
    assert_eq!(cpu.registers.d, 0xC0);
    assert_eq!(flags(&cpu), (false, false, false, true));
    cpu.registers.d = 0x01;
    cpu.srl(&Register::D, &mut mem);
    assert_eq!(cpu.registers.d, 0x00);
    assert_eq!(flags(&cpu), (true, false, false, true));
    mem.write(0xC000, 0xF1);
    cpu.swap(&Register::HLDirect, &mut mem);
    assert_eq!(mem.read(0xC000), 0x1F);
    assert_eq!(flags(&cpu), (false, false, false, false));
    cpu.rot_table(&CBRot::Swap(Register::HLDirect), &mut mem);
    assert_eq!(mem.read(0xC000), 0xF1);
}

#[test]
fn bit_res_set() {
    let (mut cpu, mut mem) = setup();
    cpu.registers.f.carry = true;
    cpu.registers.h = 0xC0;
    cpu.bit(7, &Register::H, &mut mem);
    assert_eq!(flags(&cpu), (false, false, true, true));
    cpu.bit(0, &Register::H, &mut mem);
    assert!(cpu.registers.f.zero);
    cpu.registers.c = 0xFF;
    cpu.res(3, &Register::C, &mut mem);
    assert_eq!(cpu.registers.c, 0xF7);
    cpu.set(3, &Register::C, &mut mem);
    assert_eq!(cpu.registers.c, 0xFF);
    mem.write(0xC000, 0x00);
    cpu.set(6, &Register::HLDirect, &mut mem);
    assert_eq!(mem.read(0xC000), 0x40);
}

#[test]
fn push_pop_roundtrip() {
    let (mut cpu, mut mem) = setup();
    cpu.registers.sp = 0xDFF0;
    cpu.push(0xBEEF, &mut mem);
    assert_eq!(cpu.registers.sp, 0xDFEE);
    assert_eq!(mem.read(0xDFEF), 0xBE);
    assert_eq!(mem.read(0xDFEE), 0xEF);
    cpu.pop_rp2(&RegisterPair::DE, &mut mem);
    assert_eq!(cpu.registers.de(), 0xBEEF);
    assert_eq!(cpu.registers.sp, 0xDFF0);
    cpu.registers.set_bc(0x1234);
    cpu.push_rp2(&RegisterPair::BC, &mut mem);
    cpu.pop_rp2(&RegisterPair::AF, &mut mem);
    assert_eq!(cpu.registers.a, 0x12);
    assert_eq!(cpu.registers.af(), 0x1230);
}

#[test]
fn call_ret_rst() {
    let (mut cpu, mut mem) = setup();
    cpu.registers.sp = 0xFFFE;
    cpu.pc = 0x1234;
    cpu.call(&Condition::Always, 0x4000, &mut mem);
    assert_eq!(cpu.pc, 0x4000);
    assert_eq!(cpu.registers.sp, 0xFFFC);
    cpu.ret(&Condition::Always, &mut mem);
    assert_eq!(cpu.pc, 0x1234);
    assert_eq!(cpu.registers.sp, 0xFFFE);
    cpu.registers.f.zero = true;
    cpu.call(&Condition::NZ, 0x4000, &mut mem);
    assert_eq!(cpu.pc, 0x1234);
    cpu.rst(7, &mut mem);
    assert_eq!(cpu.pc, 0x38);
    cpu.reti(&mut mem);
    assert_eq!(cpu.pc, 0x1234);
    assert!(cpu.ime);
    cpu.di();
    assert!(!cpu.ime);
    cpu.ei();
    assert!(cpu.ime);
}

#[test]
fn jumps() {
    let (mut cpu, _) = setup();
    cpu.pc = 0x0005;
    cpu.jr(&Condition::Always, -8);
    assert_eq!(cpu.pc, 0xFFFD);
    cpu.jr(&Condition::Always, 5);
    assert_eq!(cpu.pc, 0x0002);
    cpu.registers.f.carry = false;
    cpu.jp(&Condition::C, 0x8000);
    assert_eq!(cpu.pc, 0x0002);
    cpu.jp(&Condition::NC, 0x8000);
    assert_eq!(cpu.pc, 0x8000);
}

#[test]
fn stack_pointer_offsets() {
    let (mut cpu, _) = setup();
    cpu.registers.sp = 0xFFF8;
    cpu.ld_hl_sp_d(2);
    assert_eq!(cpu.registers.hl(), 0xFFFA);
    assert_eq!(flags(&cpu), (false, false, false, false));
    cpu.registers.sp = 0x00FF;
    cpu.add_sp_d(1);
    assert_eq!(cpu.registers.sp, 0x0100);
    assert_eq!(flags(&cpu), (false, false, true, true));
    cpu.registers.sp = 0x0000;
    cpu.add_sp_d(-1);
    assert_eq!(cpu.registers.sp, 0xFFFF);
    assert_eq!(flags(&cpu), (false, false, false, false));
}

#[test]
fn loads() {
    let (mut cpu, mut mem) = setup();
    cpu.registers.sp = 0xABCD;
    cpu.ld_nn_sp(0xC100, &mut mem);
    assert_eq!(mem.read(0xC100), 0xCD);
    assert_eq!(mem.read(0xC101), 0xAB);
    cpu.registers.a = 0x77;
    cpu.ld_hl_r(&Register::A, &mut mem);
    assert_eq!(mem.read(0xC000), 0x77);
    cpu.ld_r_hl(&Register::B, &mut mem);
    assert_eq!(cpu.registers.b, 0x77);
    cpu.ld_nn_r(0xC200, &Register::B, &mut mem);
    assert_eq!(mem.read(0xC200), 0x77);
    cpu.ld_r_nn(&Register::C, 0xC101, &mut mem);
    assert_eq!(cpu.registers.c, 0xAB);
    cpu.ld_addr_r(0xFF80, &Register::C, &mut mem);
    cpu.ld_r_addr(&Register::E, 0xFF80, &mut mem);
    assert_eq!(cpu.registers.e, 0xAB);
    cpu.ld_r_r(&Register::L, &Register::E);
    assert_eq!(cpu.registers.l, 0xAB);
}

#[test]
fn halt_and_halt_bug() {
    let (mut cpu, mut mem) = setup();
    mem.write(0xFFFF, 0x00);
    cpu.halt(&mut mem);
    assert!(cpu.halted);
    let (mut cpu, mut mem) = setup();
    mem.write(0xFFFF, 0x01);
    mem.write(0xFF0F, 0x01);
    cpu.ime = false;
    cpu.halt(&mut mem);
    assert!(!cpu.halted);
    assert!(cpu.halt_bug);
    cpu.pc = 0xC010;
    mem.write(0xC010, 0x3C);
    let first = cpu.fetch(&mut mem);
    let second = cpu.fetch(&mut mem);
    assert_eq!((first, second), (0x3C, 0x3C));
    assert_eq!(cpu.pc, 0xC011);
    let (mut cpu, mut mem) = setup();
    mem.write(0xFFFF, 0x01);
    mem.write(0xFF0F, 0x01);
    cpu.ime = true;
    cpu.halt(&mut mem);
    assert!(cpu.halted);
}

#[test]
fn adc_sbc_with_carry_clear() {
    let (mut cpu, _) = setup();
    cpu.registers.a = 0x8F;
    cpu.adc_a_n(0x71);
    let adc = (cpu.registers.a, flags(&cpu));
    cpu.registers.f = FlagsRegister::from(0);
    cpu.registers.a = 0x8F;
    cpu.add_a_n(0x71);
    assert_eq!(adc, (cpu.registers.a, flags(&cpu)));
    assert_eq!(cpu.registers.a, 0x00);
    assert!(cpu.registers.f.carry);
    cpu.registers.f = FlagsRegister::from(0);
    cpu.registers.a = 0x10;
    cpu.sbc_n(0x21);
    let sbc = (cpu.registers.a, flags(&cpu));
    cpu.registers.f = FlagsRegister::from(0);
    cpu.registers.a = 0x10;
    cpu.sub_n(0x21);
    assert_eq!(sbc, (cpu.registers.a, flags(&cpu)));
    assert_eq!(cpu.registers.a, 0xEF);
}

#[test]
fn bcd_add_and_sub_then_daa() {
    let (mut cpu, _) = setup();
    cpu.registers.a = 0x58;
    cpu.add_a_n(0x67);
    cpu.acc_flags(&AccFlag::Daa);
    assert_eq!(cpu.registers.a, 0x25);
    assert!(cpu.registers.f.carry);
    cpu.registers.f = FlagsRegister::from(0);
    cpu.registers.a = 0x31;
    cpu.sub_n(0x47);
    cpu.acc_flags(&AccFlag::Daa);
    assert_eq!(cpu.registers.a, 0x84);
    assert!(cpu.registers.f.carry);
}
