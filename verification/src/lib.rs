//! A Game Boy (DMG) emulator core: CPU, memory bus and bank controllers,
//! PPU, APU, timer and joypad, each specified against an abstract model.
pub mod timer;
pub mod joypad;
pub mod cartridge;
pub mod ppu;
pub mod sprite;
pub mod apu;
pub mod mmu;
pub mod cpu;
pub mod gameboy;
