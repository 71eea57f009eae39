//! The assembler: tokens, symbols, directives, the lexer and the two-pass
//! encoding of a token stream as a binary image.

pub mod assembler;
pub mod directive;
pub mod grammar;
pub mod image;
pub mod layout;
pub mod lexer;
pub mod patterns;
pub mod resolution;
pub mod symbol;
pub mod symbol_table;
pub mod token;
