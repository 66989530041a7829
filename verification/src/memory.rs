//! The 64 KiB address space: cartridge ROM banks, video RAM, external and
//! work RAM, object attribute memory, I/O registers, high RAM and the
//! interrupt-enable register. Reads and writes of the echo range
//! 0xE000..=0xFDFF are not defined.
//!
//! The model of a `Memory` is the sequence of the 0x10000 bytes that reads
//! at each address give back.

use vstd::prelude::*;

verus! {

/// Whether an address is backed by storage. 0xFEA0..=0xFEFF is not: reads
/// give 0xFF (open bus) and writes are dropped.
pub open spec fn mapped(addr: u16) -> bool {
    !(0xFEA0 <= addr && addr <= 0xFEFF)
}

/// Whether `read` and `write` accept an address. The echo range
/// 0xE000..=0xFDFF is indexed 0x2000 below itself, which lies past the end
/// of the 8 KiB work RAM, so reads and writes there are not defined; the
/// model holds 0 at those addresses.
pub open spec fn accessible(addr: u16) -> bool {
    !(0xE000 <= addr && addr <= 0xFDFF)
}

/// The memory model after writing `val` to `addr`.
pub open spec fn written(m: Seq<u8>, addr: u16, val: u8) -> Seq<u8> {
    if mapped(addr) && accessible(addr) {
        m.update(addr as int, val)
    } else {
        m
    }
}

/// The memory model at power-on: everything zero but the interrupt flags
/// (0xFF0F reads 0xE1) and the interrupt enable register (0xFFFF reads
/// 0xE0), with the unmapped range reading 0xFF.
pub open spec fn power_on_memory() -> Seq<u8> {
    Seq::new(
        0x10000,
        |i: int|
            if !mapped(i as u16) {
                0xFFu8
            } else if !accessible(i as u16) {
                0u8
            } else if i == 0xFF0F {
                0xE1u8
            } else if i == 0xFFFF {
                0xE0u8
            } else {
                0u8
            },
    )
}

pub struct Memory {
    rom: [u8; 16384],
    rom_bank: [u8; 16384],
    vram: [u8; 8192],
    ram: [u8; 8192],
    ex_ram: [u8; 8192],
    oam: [u8; 160],
    io: [u8; 128],
    hram: [u8; 127],
    ie: u8,
}

impl Memory {
    /// The byte that a read of `addr` gives.
    pub closed spec fn byte_at(&self, addr: u16) -> u8 {
        let a = addr as int;
        if a <= 0x3FFF {
            self.rom@[a]
        } else if a <= 0x7FFF {
            self.rom_bank@[a - 0x4000]
        } else if a <= 0x9FFF {
            self.vram@[a - 0x8000]
        } else if a <= 0xBFFF {
            self.ex_ram@[a - 0xA000]
        } else if a <= 0xDFFF {
            self.ram@[a - 0xC000]
        } else if a <= 0xFDFF {
            0
        } else if a <= 0xFE9F {
            self.oam@[a - 0xFE00]
        } else if a <= 0xFEFF {
            0xFF
        } else if a <= 0xFF7F {
            self.io@[a - 0xFF00]
        } else if a <= 0xFFFE {
            self.hram@[a - 0xFF80]
        } else {
            self.ie
        }
    }
}

impl View for Memory {
    type V = Seq<u8>;

    closed spec fn view(&self) -> Seq<u8> {
        Seq::new(0x10000, |i: int| self.byte_at(i as u16))
    }
}

impl Memory {
    /// Every memory holds one byte per address.
    pub proof fn lemma_len(&self)
        ensures
            self@.len() == 0x10000,
    {
    }

    /// The model holds 0 in the echo range, where no read is defined.
    pub proof fn lemma_echo(&self, addr: u16)
        requires
            !accessible(addr),
        ensures
            self@[addr as int] == 0,
    {
    }

    /// The unmapped range always reads 0xFF.
    pub proof fn lemma_unmapped(&self, addr: u16)
        requires
            !mapped(addr),
        ensures
            self@[addr as int] == 0xFF,
    {
    }
}

/// A read right after a write to a mapped address gives the byte written.
pub proof fn lemma_read_after_write(m: Seq<u8>, addr: u16, val: u8)
    requires
        m.len() == 0x10000,
        mapped(addr),
        accessible(addr),
    ensures
        written(m, addr, val)[addr as int] == val,
        written(m, addr, val).len() == m.len(),
{
}

/// A write leaves every other address unchanged.
pub proof fn lemma_write_elsewhere(m: Seq<u8>, addr: u16, val: u8, other: u16)
    requires
        m.len() == 0x10000,
        addr != other,
    ensures
        written(m, addr, val)[other as int] == m[other as int],
{
}

/// Writing to the unmapped range changes nothing.
pub proof fn lemma_write_unmapped(m: Seq<u8>, addr: u16, val: u8)
    requires
        !mapped(addr),
    ensures
        written(m, addr, val) == m,
{
    assert(written(m, addr, val) =~= m);
}

/// Writing the byte that is already there changes nothing.
pub proof fn lemma_write_same(m: Seq<u8>, addr: u16)
    requires
        m.len() == 0x10000,
    ensures
        written(m, addr, m[addr as int]) == m,
{
    assert(written(m, addr, m[addr as int]) =~= m);
}

impl Default for Memory {
    fn default() -> (m: Self)
        ensures
            m@ == power_on_memory(),
    {
        let mut io = [0u8; 128];
        io[15] = 0b1110_0001;

        let m = Self {
            rom: [0;16384],
            rom_bank: [0;16384],
            vram: [0;8192],
            ram: [0;8192],
            ex_ram: [0;8192],
            oam: [0;160],
            io: io,
            hram: [0;127],
            ie: 0b1110_0000,
        };
        assert(m@ =~= power_on_memory());
        m
    }
}

/// Whether `read` and `write` accept `addr`.
pub fn is_accessible(addr: u16) -> (ok: bool)
    ensures
        ok == accessible(addr),
{
    !(0xE000 <= addr && addr <= 0xFDFF)
}

impl Memory {
    pub fn read(&self, addr: u16) -> (val: u8)
        requires
            accessible(addr),
        ensures
            val == self@[addr as int],
    {
        if addr <= 0x3FFF {
            self.rom[addr as usize]
        } else if addr <= 0x7FFF {
            self.rom_bank[addr as usize - 0x4000]
        } else if addr <= 0x9FFF {
            self.vram[addr as usize - 0x8000]
        } else if addr <= 0xBFFF {
            self.ex_ram[addr as usize - 0xA000]
        } else if addr <= 0xDFFF {
            self.ram[addr as usize - 0xC000]
        } else if addr <= 0xFDFF {
            self.ram[addr as usize - 0x2000]
        } else if addr <= 0xFE9F {
            self.oam[addr as usize - 0xFE00]
        } else if addr <= 0xFEFF {
            0xFF  // open bus, returns 0xFF on real hardware

        } else if addr <= 0xFF7F {
            self.io[addr as usize - 0xFF00]
        } else if addr <= 0xFFFE {
            self.hram[addr as usize - 0xFF80]
        } else {
            self.ie
        }
    }

    pub fn write(&mut self, addr: u16, val: u8)
        requires
            accessible(addr),
        ensures
            final(self)@ == written(old(self)@, addr, val),
    {
        if addr <= 0x3FFF {
            self.rom[addr as usize] = val;
        } else if addr <= 0x7FFF {
            self.rom_bank[addr as usize - 0x4000] = val;
        } else if addr <= 0x9FFF {
            self.vram[addr as usize - 0x8000] = val;
        } else if addr <= 0xBFFF {
            self.ex_ram[addr as usize - 0xA000] = val;
        } else if addr <= 0xDFFF {
            self.ram[addr as usize - 0xC000] = val;
        } else if addr <= 0xFDFF {
            self.ram[addr as usize - 0x2000] = val;
        } else if addr <= 0xFE9F {
            self.oam[addr as usize - 0xFE00] = val;
        } else if addr <= 0xFEFF {
        } else if addr <= 0xFF7F {
            self.io[addr as usize - 0xFF00] = val;
        } else if addr <= 0xFFFE {
            self.hram[addr as usize - 0xFF80] = val;
        } else {
            self.ie = val;
        }
        assert(self@ =~= written(old(self)@, addr, val));
    }
}

} // verus!
