# termboy

Game Boy / Game Boy Color and Game Boy Advance emulator cores, written in
Verus: every function of the library carries a `requires` / `ensures`
contract over a mathematical model of the hardware, and Verus proves the code
against it (no overflow, no out-of-bounds access, no panic, and the stated
behaviour).

Layout:

- `src/machine.rs`, `src/state.rs`, `src/bytes.rs`, `src/bits.rs`: the shared
  pieces: frame buffer and buttons, the little-endian save-state
  `Writer`/`Reader` with the ROM identity hash, byte-vector helpers, and
  bit-level lemmas.
- `src/gb/`: the Game Boy core: registers and the SM83 CPU, the bus with its
  memory map, timer, serial, joypad, PPU, APU (and its save-state layout),
  and the cartridge mappers (none, MBC1, MBC3 with its real-time clock, MBC5).
- `src/gba/`: the GBA core: ARM registers and PSR, the bus with its
  scheduler, timers, DMA, keypad, wait-state timing, the scanline renderer
  (text, affine and bitmap backgrounds, regular and affine sprites, windows
  and colour effects), the APU with its Direct Sound FIFOs, backup memories
  (SRAM, Flash, EEPROM), the ARM7TDMI core (branches, the barrel shifter and
  data processing in ARM state, Thumb formats 1-6) and the high-level BIOS
  calls (decompressors, memory fills, division, square root, arctangent),
  and the frame driver that steps the whole machine until the PPU has drawn
  a frame.
- `tests/`: the test suite, run against the compiled library.
- `app/`: the frontend side that the library leaves out: the `Core` trait
  with wall-clock time for battery saves, floating-point audio, the GBA
  colour-correction table, and the exponential of the BIOS MidiKey2Freq call,
  which the GBA frame driver hands to it.
