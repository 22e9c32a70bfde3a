# kisel

A small multi-system emulator (Game Boy DMG and NES) whose cores are
written and proved in Verus.

- `src/` is the verified library: the Game Boy SM83 processor (`cpu`), two
  Game Boy memory maps (`mmu`, flat; `gb::mmu`, with MBC1 banking), the
  Game Boy scanline renderer and frame loop (`gb`), and the NES cartridge
  (iNES parsing, NROM, MMC1, UxROM and CNROM banking), 6502 processor, picture unit, bus,
  save states and rewind (`nes`). Each instruction, register access and
  rendered line is specified by a spec function; the laws of the library
  (register round trips, RAM and VRAM read-after-write, stack push/pop and
  call/return, BCD addition with DAA, splitting timer ticks, scanline
  register invariants, bank selection of each mapper, save-state round
  trips, rewind contents and clearing, status-flag invariants)
  are proof functions next to the code they speak of.
- `app/` is the program around it: the minifb window, the file dialog, file
  reading and console output.
- `tests/` runs the library on concrete programs and images.

```
kisel game.gb
kisel game.nes
kisel noise
```
