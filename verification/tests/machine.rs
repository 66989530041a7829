use gameboy::cpu::Cpu;
use gameboy::gameboy::GameBoy;
use gameboy::memory::Memory;

#[test]
fn power_on_step_runs_nop() {
    let mut gb = GameBoy::default();
    assert_eq!(gb.cpu().pc, 0x0100);
    assert!(gb.can_run());
    gb.run();
    assert_eq!(gb.cpu().pc, 0x0101);
    assert!(!gb.cpu().halted);
    assert_eq!(gb.memory().read(0xFF0F), 0xE1);
}

#[test]
fn interrupt_is_served() {
    let mut cpu = Cpu::default();
    let mut mem = Memory::default();
    mem.write(0xFFFF, 0x01);
    mem.write(0xFF0F, 0x01);
    cpu.ime = true;
    cpu.halted = true;
    cpu.pc = 0xC000;
    let mut gb = GameBoy::new(cpu, mem);
    assert!(gb.can_run());
    assert_eq!(gb.cpu().pc, 0xC000);
    assert!(gb.cpu().ime);
    assert_eq!(gb.memory().read(0xFF0F), 0x01);
    assert_eq!(gb.memory().read(0xFFFD), 0x00);
    gb.run();
    // Jumped to the VBlank vector 0x40, then ran the NOP found there.
    assert_eq!(gb.cpu().pc, 0x41);
    assert!(!gb.cpu().ime);
    assert!(!gb.cpu().halted);
    assert_eq!(gb.memory().read(0xFF0F), 0x00);
    assert_eq!(gb.cpu().registers.sp, 0xFFFC);
    assert_eq!(gb.memory().read(0xFFFD), 0xC0);
    assert_eq!(gb.memory().read(0xFFFC), 0x00);
}

#[test]
fn interrupt_priority() {
    let mut cpu = Cpu::default();
    let mut mem = Memory::default();
    mem.write(0xFFFF, 0x1F);
    mem.write(0xFF0F, 0x06);
    cpu.ime = true;
    let mut gb = GameBoy::new(cpu, mem);
    gb.run();
    assert_eq!(gb.cpu().pc, 0x49);
    assert_eq!(gb.memory().read(0xFF0F), 0x04);
}

#[test]
fn pending_interrupt_wakes_without_ime() {
    let mut cpu = Cpu::default();
    let mut mem = Memory::default();
    mem.write(0xFFFF, 0x04);
    mem.write(0xFF0F, 0x04);
    cpu.halted = true;
    cpu.pc = 0xC000;
    let mut gb = GameBoy::new(cpu, mem);
    gb.run();
    assert!(!gb.cpu().halted);
    assert_eq!(gb.cpu().pc, 0xC001);
    assert_eq!(gb.memory().read(0xFF0F), 0x04);
}

#[test]
fn halted_without_pending_stays() {
    let mut cpu = Cpu::default();
    let mut mem = Memory::default();
    mem.write(0xFFFF, 0x00);
    cpu.halted = true;
    let mut gb = GameBoy::new(cpu, mem);
    gb.run();
    assert!(gb.cpu().halted);
    assert_eq!(gb.cpu().pc, 0x0100);
}

#[test]
fn unsupported_opcode_is_reported() {
    let mut cpu = Cpu::default();
    let mut mem = Memory::default();
    mem.write(0xC000, 0xD3);
    cpu.pc = 0xC000;
    let mut gb = GameBoy::new(cpu, mem);
    assert!(!gb.can_run());
}

#[test]
fn interrupt_with_stack_in_echo_range_is_refused() {
    let mut cpu = Cpu::default();
    let mut mem = Memory::default();
    mem.write(0xFFFF, 0x01);
    mem.write(0xFF0F, 0x01);
    cpu.ime = true;
    cpu.registers.sp = 0xE002;
    let mut gb = GameBoy::new(cpu, mem);
    assert!(!gb.can_run());
    assert_eq!(gb.cpu().registers.sp, 0xE002);
}
