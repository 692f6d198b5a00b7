pub mod cartridge;
pub mod bus;
pub mod sm83;
pub mod cpu;
pub mod ppu;
pub mod apu;
pub mod gameboy;
