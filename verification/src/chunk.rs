//! The compiled artifact: instructions in program order and a pool of constants.

use crate::compiler::CompileError;
use crate::op_codes::OpCode;
use crate::value::Value;
use vstd::prelude::*;
use vstd::string::*;

verus! {

/// The most constants one chunk holds: an instruction names a constant by one byte.
pub const CONSTANTS_MAX: usize = 256;

/// One instruction, with the source line it was compiled from.
#[derive(Debug, Clone, Copy, PartialEq, Eq, Structural)]
pub struct Instruction {
    pub opcode: OpCode,
    pub line: u32,
}

/// Instructions and the constants they name. Both only grow while compiling;
/// running a chunk changes neither.
#[derive(Debug, Clone)]
pub struct Chunk {
    pub bytecode: Vec<Instruction>,
    pub constants: Vec<Value>,
}

/// A chunk as a mathematical value.
pub struct ChunkView {
    pub code: Seq<Instruction>,
    pub constants: Seq<Value>,
}

impl ChunkView {
    /// The chunk with one more instruction at the end.
    pub open spec fn emit(self, opcode: OpCode, line: u32) -> ChunkView {
        ChunkView { code: self.code.push(Instruction { opcode, line }), constants: self.constants }
    }

    /// The opcodes of the instructions, in program order.
    pub open spec fn opcodes(self) -> Seq<OpCode> {
        self.code.map_values(|instruction: Instruction| instruction.opcode)
    }

    /// Whether the pool has room for one more constant.
    pub open spec fn has_room(self) -> bool {
        self.constants.len() < CONSTANTS_MAX
    }

    /// The chunk with one more constant at the end of the pool.
    pub open spec fn with_constant(self, value: Value) -> ChunkView {
        ChunkView { code: self.code, constants: self.constants.push(value) }
    }
}

impl View for Chunk {
    type V = ChunkView;

    open spec fn view(&self) -> ChunkView {
        ChunkView { code: self.bytecode@, constants: self.constants@ }
    }
}

impl Chunk {
    /// The bound on the pool, which `add_constant` keeps.
    pub open spec fn well_formed(&self) -> bool {
        self.constants@.len() <= CONSTANTS_MAX
    }

    /// The empty chunk.
    pub fn new() -> (chunk: Chunk)
        ensures
            chunk@.code == Seq::<Instruction>::empty(),
            chunk@.constants == Seq::<Value>::empty(),
            chunk.well_formed(),
    {
        Chunk { bytecode: Vec::new(), constants: Vec::new() }
    }

    /// Puts a value at the end of the pool and returns its place. A pool that
    /// already holds `CONSTANTS_MAX` values takes no more: the chunk is then
    /// left as it was.
    pub fn add_constant(&mut self, value: Value) -> (result: Result<u8, CompileError>)
        ensures
            old(self)@.has_room() ==> (result matches Ok(index) && index == old(self)@.constants.len() && final(self)@ == old(self)@.with_constant(value)),
            !old(self)@.has_room() ==> (result matches Err(error) && error@
                == "Too many constants in one chunk"@ && final(self)@ == old(self)@),
            old(self).well_formed() ==> final(self).well_formed(),
    {
        let count = self.constants.len();
        if count >= CONSTANTS_MAX {
            return Err(CompileError::CompileError(String::from_str("Too many constants in one chunk")));
        }
        self.constants.push(value);
        Ok(count as u8)
    }

    /// Puts an instruction at the end of the code. Nothing is checked: a
    /// `Constant` may name a place that the pool does not have.
    pub fn write_op(&mut self, op: OpCode, line: u32)
        ensures
            final(self)@ == old(self)@.emit(op, line),
    {
        self.bytecode.push(Instruction { opcode: op, line });
    }
}

} // verus!
