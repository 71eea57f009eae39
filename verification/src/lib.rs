//! A small instruction-set toolchain: a two-pass assembler that turns
//! line-oriented assembly text into a flat binary image, and a register
//! machine that loads and executes such an image.
//!
//! * [`assembly`] holds the lexer, the symbol table and the assembler, with
//!   the grammar of the language stated as mathematics and the proofs that
//!   the two passes agree on the layout of the image.
//! * [`vm`] holds the opcodes, the registers, the segmented memory, the
//!   instructions and the processor, with the meaning of every instruction
//!   and of the fetch-decode-execute cycle stated as mathematics.
//! * [`abi`] states that the machine finds in an image what the assembler
//!   has put there.
//! * [`util`] holds the byte order conversions and the decimal numerals.
//!
//! The library does no input or output. The assembler takes tokens and gives
//! the bytes of the image; the machine takes the bytes of an image, reads its
//! input from a queue of lines and collects what it prints.

pub mod abi;
pub mod assembly;
pub mod util;
pub mod vm;
