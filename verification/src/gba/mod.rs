//! Game Boy Advance core.
pub mod psr;
pub mod registers;
pub mod flash;
pub mod timing;
pub mod keypad;
pub mod save;
pub mod eeprom;
pub mod ppu;
pub mod bios;
pub mod apu;
pub mod apu_state;
pub mod bus;
pub mod timers;
pub mod dma;
pub mod affine;
pub mod sprites;
pub mod render;
pub mod cpu;
pub mod arm;
pub mod thumb;
pub mod syscalls;
pub mod system;
