# gameboy

The core of a Game Boy (DMG) emulator, verified with Verus.

- `src/registers.rs`: the register file, the flags register and its byte
  encoding, 8- and 16-bit register access.
- `src/memory.rs`: the 64 KiB memory map (ROM banks, VRAM, external RAM,
  work RAM, OAM, I/O, HRAM, IE), modelled as the sequence of bytes that
  reads return. Reads and writes of the echo range 0xE000..=0xFDFF are not
  defined, and every operation that touches memory requires its addresses
  to lie outside it.
- `src/cpu/`: the CPU state, the operand tables of the opcode encoding
  (`helpers`), the semantics of every instruction as functions on machine
  states (`semantics`), the executable instructions proved against them
  (`ops`), fetch/decode/execute (`fde`) and properties across instructions
  (`laws`).
- `src/gameboy.rs`: the machine step, with interrupt dispatch.
- `app/main.rs`: the program that builds a machine and steps it.
