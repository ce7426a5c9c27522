//! The byte that stands for each opcode.

use vstd::prelude::*;

verus! {

pub const OP_RETURN: u8 = 0;

pub const OP_CONSTANT: u8 = 1;

pub const OP_ADD: u8 = 2;

pub const OP_SUBTRACT: u8 = 3;

pub const OP_MULTIPLY: u8 = 4;

pub const OP_DIVIDE: u8 = 5;

pub const OP_NEGATE: u8 = 6;

pub const OP_INVALID: u8 = 255;

} // verus!
