//! Game Boy / Game Boy Color core.
pub mod registers;
pub mod joypad;
pub mod serial;
pub mod timer;
pub mod mbc;
pub mod mbc3;
pub mod cartridge;
pub mod ppu;
pub mod apu;
pub mod apu_state;
pub mod bus;
pub mod cpu;
pub mod system;

pub use system::{GameBoy, CYCLES_PER_FRAME};
