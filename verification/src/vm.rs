//! The stack machine that runs a chunk.

use crate::chunk::{Chunk, ChunkView};
use crate::op_codes::OpCode;
use crate::value::Value;
use std::collections::VecDeque;
use vstd::prelude::*;
use vstd::string::*;

verus! {

/// The most values the stack holds.
pub const STACK_MAX: usize = 256;

/// Why a run stopped before its end.
#[derive(Debug, Clone, Copy, PartialEq, Eq, Structural)]
pub enum InterpretError {
    /// A value was pushed on a full stack.
    StackOverflow,
    /// An instruction found fewer values on the stack than it takes.
    StackUnderflow,
    /// An instruction that cannot be decoded: the opcode `Invalid`, or a
    /// constant that the pool does not have.
    InvalidInstruction,
}

impl InterpretError {
    /// The message of the error.
    pub open spec fn message(self) -> Seq<char> {
        match self {
            InterpretError::StackOverflow => "Stack overflow"@,
            InterpretError::StackUnderflow => "Stack underflow"@,
            InterpretError::InvalidInstruction => "Invalid instruction"@,
        }
    }

    /// The message of the error.
    pub fn to_string(&self) -> (text: String)
        ensures
            text@ == self.message(),
    {
        match self {
            InterpretError::StackOverflow => String::from_str("Stack overflow"),
            InterpretError::StackUnderflow => String::from_str("Stack underflow"),
            InterpretError::InvalidInstruction => String::from_str("Invalid instruction"),
        }
    }
}

/// Whether `model` says for every operation and every two operands what
/// `alu` returns for them.
pub open spec fn computes<A: Fn(OpCode, Value, Value) -> Value>(
    alu: A,
    model: spec_fn(OpCode, Value, Value) -> Value,
) -> bool {
    forall|op: OpCode, left: Value, right: Value, result: Value| #[trigger]
        call_ensures(alu, (op, left, right), result) ==> result == model(op, left, right)
}

/// What one instruction does to the stack.
pub enum Effect {
    /// The run goes on with this stack.
    Next(Seq<Value>),
    /// The run ends with this value as its result, and leaves this stack.
    Halt(Value, Seq<Value>),
    /// The run fails, and the stack is left as it was.
    Fail(InterpretError),
}

/// What the instruction `op` does to `stack`, given the pool of constants
/// and the function that does the arithmetic. The right operand of an
/// operation lies on top, the left one under it.
pub open spec fn execute(
    op: OpCode,
    constants: Seq<Value>,
    stack: Seq<Value>,
    alu: spec_fn(OpCode, Value, Value) -> Value,
) -> Effect {
    let depth = stack.len() as int;
    match op {
        OpCode::Constant(index) => if index >= constants.len() {
            Effect::Fail(InterpretError::InvalidInstruction)
        } else if depth >= STACK_MAX {
            Effect::Fail(InterpretError::StackOverflow)
        } else {
            Effect::Next(stack.push(constants[index as int]))
        },
        OpCode::Negate => if depth < 1 {
            Effect::Fail(InterpretError::StackUnderflow)
        } else {
            Effect::Next(stack.take(depth - 1).push(stack[depth - 1].negated()))
        },
        OpCode::Return => if depth < 1 {
            Effect::Fail(InterpretError::StackUnderflow)
        } else {
            Effect::Halt(stack[depth - 1], stack.take(depth - 1))
        },
        OpCode::Invalid => Effect::Fail(InterpretError::InvalidInstruction),
        _ => if depth < 2 {
            Effect::Fail(InterpretError::StackUnderflow)
        } else {
            Effect::Next(stack.take(depth - 2).push(alu(op, stack[depth - 2], stack[depth - 1])))
        },
    }
}

/// How a run ends: where it stopped, the stack it leaves, and its result: the
/// value that a `Return` reported, nothing if the code ran out, or the error.
pub struct Run {
    pub ip: int,
    pub stack: Seq<Value>,
    pub result: Result<Option<Value>, InterpretError>,
}

/// The run of a chunk from the instruction `ip` on, with the given stack.
/// Instructions are executed in order up to the first `Return`, the first
/// that fails, or the end of the code; `ip` is then the place of that
/// instruction, or the length of the code.
pub open spec fn run(
    chunk: ChunkView,
    ip: int,
    stack: Seq<Value>,
    alu: spec_fn(OpCode, Value, Value) -> Value,
) -> Run
    decreases chunk.code.len() - ip,
{
    if ip < 0 || ip >= chunk.code.len() {
        Run { ip, stack, result: Ok(None) }
    } else {
        match execute(chunk.code[ip].opcode, chunk.constants, stack, alu) {
            Effect::Next(stack) => run(chunk, ip + 1, stack, alu),
            Effect::Halt(value, stack) => Run { ip, stack, result: Ok(Some(value)) },
            Effect::Fail(error) => Run { ip, stack, result: Err(error) },
        }
    }
}

/// The machine: the chunk it ran last, where that run stopped, and the stack.
pub struct VM {
    pub chunk: Option<Chunk>,
    pub ip: usize,
    pub stack: VecDeque<Value>,
}

impl VM {
    /// A machine with no chunk and an empty stack.
    pub fn new() -> (vm: VM)
        ensures
            vm.chunk is None,
            vm.ip == 0,
            vm.stack@ == Seq::<Value>::empty(),
    {
        VM { chunk: None, ip: 0, stack: VecDeque::new() }
    }

    /// Puts a value on the stack. A stack that holds `STACK_MAX` values takes
    /// no more, and is left as it was.
    pub fn stack_push(&mut self, value: Value) -> (result: Result<(), InterpretError>)
        ensures
            old(self).stack@.len() < STACK_MAX ==> result is Ok && final(self).stack@ == old(self).stack@.push(value),
            old(self).stack@.len() >= STACK_MAX ==> result == Err::<(), InterpretError>(
                InterpretError::StackOverflow,
            ) && final(self).stack@ == old(self).stack@,
            final(self).ip == old(self).ip,
            final(self).chunk == old(self).chunk,
    {
        if self.stack.len() >= STACK_MAX {
            return Err(InterpretError::StackOverflow);
        }
        self.stack.push_back(value);
        Ok(())
    }

    /// Takes the top value off the stack, if there is one.
    pub fn stack_pop(&mut self) -> (value: Option<Value>)
        ensures
            match value {
                Some(value) => old(self).stack@.len() > 0 && value == old(self).stack@.last()
                    && final(self).stack@ == old(self).stack@.drop_last(),
                None => old(self).stack@.len() == 0 && final(self).stack@ == old(self).stack@,
            },
            final(self).ip == old(self).ip,
            final(self).chunk == old(self).chunk,
    {
        self.stack.pop_back()
    }

    /// Empties the stack.
    pub fn stack_reset(&mut self)
        ensures
            final(self).stack@ == Seq::<Value>::empty(),
            final(self).ip == old(self).ip,
            final(self).chunk == old(self).chunk,
    {
        self.stack.clear();
    }

    /// Executes an operation on two operands: the right one is taken off the
    /// stack first, then the left one, and what `alu` makes of them is put back.
    fn binary_op<A: Fn(OpCode, Value, Value) -> Value>(&mut self, op: OpCode, alu: &A) -> (result:
        Result<(), InterpretError>)
        requires
            op.is_binary(),
            forall|left: Value, right: Value| call_requires(*alu, (op, left, right)),
        ensures
            final(self).ip == old(self).ip,
            final(self).chunk == old(self).chunk,
            old(self).stack@.len() < 2 ==> result == Err::<(), InterpretError>(
                InterpretError::StackUnderflow,
            ) && final(self).stack@ == old(self).stack@,
            old(self).stack@.len() >= 2 ==> result is Ok && final(self).stack@.len() == old(self).stack@.len() - 1,
            forall|model: spec_fn(OpCode, Value, Value) -> Value|
                old(self).stack@.len() >= 2 && #[trigger] computes(*alu, model) ==> final(self).stack@ == old(self).stack@.take(old(self).stack@.len() - 2).push(
                    model(
                        op,
                        old(self).stack@[old(self).stack@.len() - 2],
                        old(self).stack@[old(self).stack@.len() - 1],
                    ),
                ),
    {
        if self.stack.len() < 2 {
            return Err(InterpretError::StackUnderflow);
        }
        let right = self.stack.pop_back().unwrap();
        let left = self.stack.pop_back().unwrap();
        self.stack.push_back(alu(op, left, right));
        Ok(())
    }

    /// Runs a chunk from its first instruction on an empty stack. `alu` does
    /// the four operations that take two operands. The result is the value
    /// that a `Return` reported, or nothing if the code ran out before one.
    /// The machine keeps the chunk, the place where the run stopped and the
    /// stack that it left.
    pub fn interpret<A: Fn(OpCode, Value, Value) -> Value>(&mut self, chunk: Chunk, alu: A) -> (result:
        Result<Option<Value>, InterpretError>)
        requires
            forall|op: OpCode, left: Value, right: Value|
                op.is_binary() ==> call_requires(alu, (op, left, right)),
        ensures
            final(self).chunk == Some(chunk),
            final(self).stack@.len() <= STACK_MAX,
            forall|model: spec_fn(OpCode, Value, Value) -> Value| #[trigger]
                computes(alu, model) ==> {
                    let end = run(chunk@, 0, Seq::empty(), model);
                    &&& result == end.result
                    &&& final(self).ip == end.ip
                    &&& final(self).stack@ == end.stack
                },
    {
        self.ip = 0;
        self.stack.clear();
        let result = self.execute_all(&chunk, &alu);
        self.chunk = Some(chunk);
        result
    }

    /// Runs the instructions of a chunk from where the machine stands.
    fn execute_all<A: Fn(OpCode, Value, Value) -> Value>(&mut self, chunk: &Chunk, alu: &A) -> (result:
        Result<Option<Value>, InterpretError>)
        requires
            old(self).stack@.len() <= STACK_MAX,
            forall|op: OpCode, left: Value, right: Value|
                op.is_binary() ==> call_requires(*alu, (op, left, right)),
        ensures
            final(self).chunk == old(self).chunk,
            final(self).stack@.len() <= STACK_MAX,
            forall|model: spec_fn(OpCode, Value, Value) -> Value| #[trigger]
                computes(*alu, model) ==> {
                    let end = run(chunk@, old(self).ip as int, old(self).stack@, model);
                    &&& result == end.result
                    &&& final(self).ip == end.ip
                    &&& final(self).stack@ == end.stack
                },
    {
        while self.ip < chunk.bytecode.len()
            invariant
                self.chunk == old(self).chunk,
                self.stack@.len() <= STACK_MAX,
                forall|op: OpCode, left: Value, right: Value|
                    op.is_binary() ==> call_requires(*alu, (op, left, right)),
                forall|model: spec_fn(OpCode, Value, Value) -> Value| #[trigger]
                    computes(*alu, model) ==> run(
                        chunk@,
                        old(self).ip as int,
                        old(self).stack@,
                        model,
                    ) == run(chunk@, self.ip as int, self.stack@, model),
            decreases chunk.bytecode@.len() - self.ip,
        {
            let op = chunk.bytecode[self.ip].opcode;
            match op {
                OpCode::Constant(index) => {
                    if index as usize >= chunk.constants.len() {
                        return Err(InterpretError::InvalidInstruction);
                    }
                    self.stack_push(chunk.constants[index as usize])?;
                },
                OpCode::Negate => {
                    match self.stack_pop() {
                        Some(number) => {
                            self.stack.push_back(number.negate());
                        },
                        None => {
                            return Err(InterpretError::StackUnderflow);
                        },
                    }
                },
                OpCode::Return => {
                    return match self.stack_pop() {
                        Some(value) => Ok(Some(value)),
                        None => Err(InterpretError::StackUnderflow),
                    };
                },
                OpCode::Invalid => {
                    return Err(InterpretError::InvalidInstruction);
                },
                _ => {
                    self.binary_op(op, alu)?;
                },
            }
            self.ip = self.ip + 1;
        }
        Ok(None)
    }
}

/// The stack discipline. A run that starts with no more than `STACK_MAX`
/// values on the stack never leaves more. An operation on two operands that
/// finds fewer than two values stops the run with `StackUnderflow`, as a
/// negation or a return that finds none does, and a constant that would be the
/// value number `STACK_MAX + 1` stops it with `StackOverflow`; the stack is
/// then as the instruction found it.
pub proof fn stack_discipline(
    chunk: ChunkView,
    ip: int,
    stack: Seq<Value>,
    alu: spec_fn(OpCode, Value, Value) -> Value,
)
    requires
        stack.len() <= STACK_MAX,
    ensures
        run(chunk, ip, stack, alu).stack.len() <= STACK_MAX,
        0 <= ip < chunk.code.len() && chunk.code[ip].opcode.is_binary() && stack.len() < 2 ==> run(
            chunk,
            ip,
            stack,
            alu,
        ) == (Run { ip, stack, result: Err(InterpretError::StackUnderflow) }),
        0 <= ip < chunk.code.len() && (chunk.code[ip].opcode is Negate
            || chunk.code[ip].opcode is Return) && stack.len() < 1 ==> run(chunk, ip, stack, alu)
            == (Run { ip, stack, result: Err(InterpretError::StackUnderflow) }),
        forall|index: u8|
            0 <= ip < chunk.code.len() && stack.len() == STACK_MAX && chunk.code[ip].opcode
                == OpCode::Constant(index) && index < chunk.constants.len() ==> run(
                chunk,
                ip,
                stack,
                alu,
            ) == (Run { ip, stack, result: Err(InterpretError::StackOverflow) }),
    decreases chunk.code.len() - ip,
{
    if 0 <= ip < chunk.code.len() {
        match execute(chunk.code[ip].opcode, chunk.constants, stack, alu) {
            Effect::Next(next) => {
                stack_discipline(chunk, ip + 1, next, alu);
            },
            _ => {},
        }
    }
}

} // verus!
