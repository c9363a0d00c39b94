//! An emulator for the LJD 16-bit computer: a 16-register CPU with a
//! Harvard memory layout (program ROM, cartridge data ROM and console RAM).

pub mod computer;
pub mod cpu;
pub mod error;
pub mod instruction_laws;
pub mod isa;
pub mod laws;
pub mod memory;
