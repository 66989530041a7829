use gameboy::memory::{is_accessible, Memory};

#[test]
fn power_on_contents() {
    let m = Memory::default();
    assert_eq!(m.read(0xFF0F), 0xE1);
    assert_eq!(m.read(0xFFFF), 0xE0);
    assert_eq!(m.read(0xFEA0), 0xFF);
    assert_eq!(m.read(0xFEFF), 0xFF);
    assert_eq!(m.read(0x0000), 0x00);
    assert_eq!(m.read(0xC123), 0x00);
    assert_eq!(m.read(0xFF80), 0x00);
}

#[test]
fn read_after_write_every_region() {
    let mut m = Memory::default();
    let addrs: [u16; 11] = [
        0x0000, 0x3FFF, 0x4000, 0x8000, 0xA000, 0xC000, 0xDFFF, 0xFE00, 0xFF00, 0xFF80, 0xFFFF,
    ];
    for (i, a) in addrs.iter().enumerate() {
        m.write(*a, 0x10 + i as u8);
    }
    for (i, a) in addrs.iter().enumerate() {
        assert_eq!(m.read(*a), 0x10 + i as u8);
    }
}

#[test]
fn echo_range_is_not_accessible() {
    assert!(!is_accessible(0xE000));
    assert!(!is_accessible(0xFDFF));
    assert!(is_accessible(0xDFFF));
    assert!(is_accessible(0xFE00));
    assert!(is_accessible(0xFEA0));
}

#[test]
fn unmapped_writes_are_dropped() {
    let mut m = Memory::default();
    m.write(0xFEA5, 1);
    assert_eq!(m.read(0xFEA5), 0xFF);
    assert_eq!(m.read(0xFE9F), 0x00);
    assert_eq!(m.read(0xFF00), 0x00);
}

#[test]
fn write_leaves_other_addresses() {
    let mut m = Memory::default();
    m.write(0x8001, 0xAA);
    assert_eq!(m.read(0x8000), 0);
    assert_eq!(m.read(0x8002), 0);
    assert_eq!(m.read(0xA001), 0);
    assert_eq!(m.read(0xFF0F), 0xE1);
}

#[test]
fn rewriting_same_byte_changes_nothing() {
    let mut m = Memory::default();
    m.write(0xC010, 0x5A);
    let before = m.read(0xC011);
    let v = m.read(0xC010);
    m.write(0xC010, v);
    assert_eq!(m.read(0xC010), 0x5A);
    assert_eq!(m.read(0xC011), before);
}
