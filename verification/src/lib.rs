//! A single-pass bytecode compiler and stack machine for a small expression
//! language of numbers, `+ - * /`, unary minus and parentheses.
//!
//! Source text is scanned into tokens, the tokens are compiled by precedence
//! climbing straight into a [`chunk::Chunk`], and the [`vm::VM`] runs the chunk.
//!
//! Numbers are doubles, but this crate never computes with one: a
//! [`value::Value`] holds the 64 bits of a double, and the three operations that
//! need the number itself are handed in by the caller as functions: decoding a
//! literal (scanner), the four rounding operations (machine) and printing
//! (disassembler). Everything else, negation included, is done and proved here.

pub mod value;
pub mod text;
pub mod op_codes;
pub mod chunk;
pub mod compiler;
pub mod vm;
pub mod disassembler;
pub mod semantics;
