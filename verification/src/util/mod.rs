//! Helpers shared by the assembler and the virtual machine.

pub mod decimal;
pub mod endianness;
