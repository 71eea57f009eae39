//! The virtual machine: opcodes, registers, segmented memory, instruction
//! semantics and the fetch-decode-execute loop.

pub mod cpu;
pub mod instruction;
pub mod memory;
pub mod opcode;
pub mod register;
pub mod semantics;
