# gbcore

A Game Boy (DMG) emulator core whose behaviour is specified and proved with
Verus.

- `src/` is the verified library. Each unit has an abstract model (a ghost
  struct of sequences and integers, reached through `@`) and every operation
  is specified as a function on that model:
  - `timer.rs`: DIV/TIMA/TMA/TAC.
  - `joypad.rs`: the P1 register and button state.
  - `cartridge.rs`: ROM/RAM and the MBC1/MBC3/MBC5 bank controllers.
  - `ppu.rs`, `sprite.rs`: the LCD mode state machine and scanline
    rendering; sprite priority is specified declaratively (the sprite with
    the smallest X wins, ties to the later OAM entry).
  - `apu.rs`: the four sound channels, frame sequencer and register file;
    samples are recorded as integer channel levels.
  - `mmu.rs`: the memory map, OAM DMA and interrupt folding.
  - `cpu.rs`: the SM83 instruction set, interrupts, HALT and its bug.
  - `gameboy.rs`: the machine and its frame loop.
  Public `law_*` proof functions state properties that relate several
  operations (read-after-write, push/pop, CALL/RET, press/release, sprite
  priority, DAA on packed BCD, the sample rate over many steps, how one PPU
  step moves LY, how interrupt requests reach IF, the state after boot).
- `app/` holds the WebAssembly exports and the floating-point audio mix.
- `tests/` runs small hand-assembled programs on the whole machine and
  exercises each unit.
