//! A small Game Boy emulator core: registers, flags, memory and an
//! instruction decoder and executor, with their behaviour stated as
//! contracts.

pub mod debug;
pub mod gameboy;
