//! The instruction set.

#[allow(non_snake_case)]
pub mod ByteOp;

use crate::op_codes::ByteOp::{
    OP_ADD, OP_CONSTANT, OP_DIVIDE, OP_INVALID, OP_MULTIPLY, OP_NEGATE, OP_RETURN, OP_SUBTRACT,
};
use vstd::prelude::*;
use vstd::std_specs::convert::FromSpecImpl;
use vstd::string::*;

verus! {

/// What one instruction does. `Constant` carries the place of its value in the
/// chunk's constant pool.
#[derive(Debug, Clone, Copy, PartialEq, Eq, Structural)]
pub enum OpCode {
    Return,
    Constant(u8),
    Addition,
    Subtraction,
    Multiplication,
    Division,
    Negate,
    Invalid,
}

impl OpCode {
    /// The byte that stands for the opcode.
    pub open spec fn byte(self) -> u8 {
        match self {
            OpCode::Return => OP_RETURN,
            OpCode::Constant(_) => OP_CONSTANT,
            OpCode::Addition => OP_ADD,
            OpCode::Subtraction => OP_SUBTRACT,
            OpCode::Multiplication => OP_MULTIPLY,
            OpCode::Division => OP_DIVIDE,
            OpCode::Negate => OP_NEGATE,
            OpCode::Invalid => OP_INVALID,
        }
    }

    /// The opcode that a byte stands for when no operand follows it. The byte
    /// of `Constant` is of no use without its operand, and like every unknown
    /// byte it gives `Invalid`.
    pub open spec fn of_byte(byte: u8) -> OpCode {
        if byte == OP_RETURN {
            OpCode::Return
        } else if byte == OP_ADD {
            OpCode::Addition
        } else if byte == OP_SUBTRACT {
            OpCode::Subtraction
        } else if byte == OP_MULTIPLY {
            OpCode::Multiplication
        } else if byte == OP_DIVIDE {
            OpCode::Division
        } else if byte == OP_NEGATE {
            OpCode::Negate
        } else {
            OpCode::Invalid
        }
    }

    /// The four operations that take two operands.
    pub open spec fn is_binary(self) -> bool {
        self is Addition || self is Subtraction || self is Multiplication || self is Division
    }

    /// The name under which the opcode is listed.
    pub open spec fn name(self) -> Seq<char> {
        match self {
            OpCode::Return => "OP_RETURN"@,
            OpCode::Constant(_) => "OP_CONSTANT"@,
            OpCode::Addition => "OP_ADD"@,
            OpCode::Subtraction => "OP_SUBTRACT"@,
            OpCode::Multiplication => "OP_MULTIPLY"@,
            OpCode::Division => "OP_DIVIDE"@,
            OpCode::Negate => "OP_NEGATE"@,
            OpCode::Invalid => "OP_INVALID"@,
        }
    }

    /// The opcode that a byte stands for when no operand follows it.
    pub fn from_byte(byte: u8) -> (op: OpCode)
        ensures
            op == OpCode::of_byte(byte),
    {
        if byte == OP_RETURN {
            OpCode::Return
        } else if byte == OP_ADD {
            OpCode::Addition
        } else if byte == OP_SUBTRACT {
            OpCode::Subtraction
        } else if byte == OP_MULTIPLY {
            OpCode::Multiplication
        } else if byte == OP_DIVIDE {
            OpCode::Division
        } else if byte == OP_NEGATE {
            OpCode::Negate
        } else {
            OpCode::Invalid
        }
    }

    /// The name of the opcode as a word: `name` as a string slice.
    pub fn mnemonic(&self) -> (word: &'static str)
        ensures
            word@ == self.name(),
    {
        match self {
            OpCode::Return => "OP_RETURN",
            OpCode::Constant(_) => "OP_CONSTANT",
            OpCode::Addition => "OP_ADD",
            OpCode::Subtraction => "OP_SUBTRACT",
            OpCode::Multiplication => "OP_MULTIPLY",
            OpCode::Division => "OP_DIVIDE",
            OpCode::Negate => "OP_NEGATE",
            OpCode::Invalid => "OP_INVALID",
        }
    }

    /// The name of the opcode: `OP_` and the operation in capitals.
    pub fn to_string(&self) -> (text: String)
        ensures
            text@ == self.name(),
    {
        String::from_str(self.mnemonic())
    }
}

impl From<OpCode> for u8 {
    fn from(op: OpCode) -> (byte: u8) {
        match op {
            OpCode::Return => OP_RETURN,
            OpCode::Constant(_) => OP_CONSTANT,
            OpCode::Addition => OP_ADD,
            OpCode::Subtraction => OP_SUBTRACT,
            OpCode::Multiplication => OP_MULTIPLY,
            OpCode::Division => OP_DIVIDE,
            OpCode::Negate => OP_NEGATE,
            OpCode::Invalid => OP_INVALID,
        }
    }
}

impl FromSpecImpl<OpCode> for u8 {
    open spec fn obeys_from_spec() -> bool {
        true
    }

    open spec fn from_spec(op: OpCode) -> u8 {
        op.byte()
    }
}

} // verus!
