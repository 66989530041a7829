use gameboy::registers::{Condition, FlagsRegister, Register, RegisterPair, Registers};

fn zeroed() -> Registers {
    Registers {
        a: 0,
        f: FlagsRegister::from(0),
        b: 0,
        c: 0,
        d: 0,
        e: 0,
        h: 0,
        l: 0,
        sp: 0,
    }
}

#[test]
fn flags_from_byte_reads_upper_nibble() {
    let f = FlagsRegister::from(0xB5);
    assert!(f.zero);
    assert!(!f.subtract);
    assert!(f.half_carry);
    assert!(f.carry);
    assert_eq!(u8::from(f), 0xB0);
}

#[test]
fn flags_byte_roundtrip() {
    for b in 0..=255u8 {
        let f = FlagsRegister::from(b);
        assert_eq!(u8::from(f), b & 0xF0);
        let g = FlagsRegister::from(u8::from(f));
        assert_eq!(
            (g.zero, g.subtract, g.half_carry, g.carry),
            (f.zero, f.subtract, f.half_carry, f.carry)
        );
    }
}

#[test]
fn default_registers_match_boot_rom() {
    let r = Registers::default();
    assert_eq!(r.af(), 0x01B0);
    assert_eq!(r.bc(), 0x0013);
    assert_eq!(r.de(), 0x00D8);
    assert_eq!(r.hl(), 0x014D);
    assert_eq!(r.sp, 0xFFFE);
}

#[test]
fn pairs_read_back() {
    let mut r = zeroed();
    r.set_bc(0xBEEF);
    assert_eq!((r.b, r.c), (0xBE, 0xEF));
    assert_eq!(r.bc(), 0xBEEF);
    r.set_de(0x1234);
    assert_eq!(r.de(), 0x1234);
    r.set_hl(0xC0DE);
    assert_eq!((r.h, r.l), (0xC0, 0xDE));
    r.set_rp(&RegisterPair::SP, 0xFFF0);
    assert_eq!(r.get_rp(&RegisterPair::SP), 0xFFF0);
    assert_eq!(r.get_rp(&RegisterPair::BC), 0xBEEF);
    assert_eq!(r.get_rp(&RegisterPair::DE), 0x1234);
    assert_eq!(r.get_rp(&RegisterPair::HL), 0xC0DE);
}

#[test]
fn af_keeps_only_flag_bits() {
    let mut r = zeroed();
    r.set_af(0x12FF);
    assert_eq!(r.a, 0x12);
    assert_eq!(r.af(), 0x12F0);
    r.set_rp(&RegisterPair::AF, 0x3455);
    assert_eq!(r.get_rp(&RegisterPair::AF), 0x3450);
}

#[test]
fn pair_write_leaves_others() {
    let mut r = zeroed();
    r.set_rp(&RegisterPair::DE, 0x5566);
    r.set_rp(&RegisterPair::BC, 0x1122);
    assert_eq!(r.get_rp(&RegisterPair::DE), 0x5566);
    assert_eq!(r.get_rp(&RegisterPair::HL), 0);
    assert_eq!(r.sp, 0);
}

#[test]
fn inc_dec_rp_wrap_and_undo() {
    let mut r = zeroed();
    r.set_bc(0xFFFF);
    r.inc_rp(&RegisterPair::BC);
    assert_eq!(r.bc(), 0);
    r.dec_rp(&RegisterPair::BC);
    assert_eq!(r.bc(), 0xFFFF);
    r.dec_rp(&RegisterPair::SP);
    assert_eq!(r.sp, 0xFFFF);
    r.inc_rp(&RegisterPair::SP);
    assert_eq!(r.sp, 0);
    r.set_hl(0x00FF);
    r.inc_rp(&RegisterPair::HL);
    assert_eq!((r.h, r.l), (0x01, 0x00));
}

#[test]
fn set_get_r_and_f() {
    let mut r = zeroed();
    r.set_r(&Register::D, 0x42);
    assert_eq!(r.get_r(&Register::D), 0x42);
    assert_eq!(r.d, 0x42);
    r.set_r(&Register::F, 0x5F);
    assert_eq!(r.get_r(&Register::F), 0x50);
    assert!(r.f.subtract && r.f.carry && !r.f.zero && !r.f.half_carry);
}

#[test]
fn register_inc_dec_wrap() {
    let mut r = zeroed();
    r.l = 0xFF;
    r.inc_r(&Register::L);
    assert_eq!(r.l, 0);
    r.dec_r(&Register::L);
    assert_eq!(r.l, 0xFF);
    r.dec_r(&Register::A);
    assert_eq!(r.a, 0xFF);
}

#[test]
fn add_hl_flags() {
    let mut r = zeroed();
    r.f.zero = true;
    r.set_hl(0x0FFF);
    r.set_bc(0x0001);
    r.add_hl(&RegisterPair::BC);
    assert_eq!(r.hl(), 0x1000);
    assert!(r.f.half_carry);
    assert!(!r.f.carry);
    assert!(!r.f.subtract);
    assert!(r.f.zero);
    r.set_hl(0xFFFF);
    r.add_hl(&RegisterPair::BC);
    assert_eq!(r.hl(), 0);
    assert!(r.f.carry);
    r.set_hl(0x8000);
    r.add_hl(&RegisterPair::HL);
    assert_eq!(r.hl(), 0);
    assert!(r.f.carry && !r.f.half_carry);
}

#[test]
fn daa_after_bcd_addition() {
    let mut r = zeroed();
    // 45 + 38 = 83: the binary sum is 0x7D.
    r.a = 0x7D;
    r.daa();
    assert_eq!(r.a, 0x83);
    assert!(!r.f.carry && !r.f.zero && !r.f.half_carry);
    // 99 + 01 = 100: binary sum 0x9A.
    r.a = 0x9A;
    r.f = FlagsRegister::from(0);
    r.daa();
    assert_eq!(r.a, 0x00);
    assert!(r.f.carry);
    assert!(r.f.zero);
    // 09 + 08 = 17: binary 0x11 with half carry.
    r.a = 0x11;
    r.f = FlagsRegister::from(0x20);
    r.daa();
    assert_eq!(r.a, 0x17);
}

#[test]
fn daa_after_bcd_subtraction() {
    let mut r = zeroed();
    // 42 - 19 = 23: binary 0x29 with half borrow.
    r.a = 0x29;
    r.f = FlagsRegister::from(0x60);
    r.daa();
    assert_eq!(r.a, 0x23);
    assert!(!r.f.carry);
    assert!(r.f.subtract);
    // 10 - 20 = -10 -> 90 with borrow: binary 0xF0 with carry.
    r.a = 0xF0;
    r.f = FlagsRegister::from(0x50);
    r.daa();
    assert_eq!(r.a, 0x90);
    assert!(r.f.carry);
}

#[test]
fn cpl_scf_ccf() {
    let mut r = zeroed();
    r.a = 0x35;
    r.cpl();
    assert_eq!(r.a, 0xCA);
    assert!(r.f.subtract && r.f.half_carry);
    r.cpl();
    assert_eq!(r.a, 0x35);
    r.scf();
    assert!(r.f.carry && !r.f.subtract && !r.f.half_carry);
    r.ccf();
    assert!(!r.f.carry);
    r.ccf();
    assert!(r.f.carry);
}

#[test]
fn register_rotates() {
    let mut r = zeroed();
    r.b = 0x85;
    r.rotate_left(&Register::B, false);
    assert_eq!(r.b, 0x0B);
    assert!(r.f.carry && !r.f.zero);
    r.rotate_right(&Register::B, false);
    assert_eq!(r.b, 0x85);
    assert!(r.f.carry);
    r.f.carry = false;
    r.c = 0x80;
    r.rotate_left(&Register::C, true);
    assert_eq!(r.c, 0x00);
    assert!(r.f.carry);
    assert!(!r.f.zero);
    r.rotate_right(&Register::C, true);
    assert_eq!(r.c, 0x80);
    assert!(!r.f.carry);
}

#[test]
fn conditions() {
    let mut r = zeroed();
    r.f.zero = true;
    assert!(r.cc_match(&Condition::Z));
    assert!(!r.cc_match(&Condition::NZ));
    assert!(r.cc_match(&Condition::NC));
    assert!(!r.cc_match(&Condition::C));
    assert!(r.cc_match(&Condition::Always));
}
