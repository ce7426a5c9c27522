//! The listing of a chunk: one line of text for each instruction.

use crate::chunk::{Chunk, ChunkView};
use crate::op_codes::OpCode;
use crate::text::{
    push_char, push_space_padded, push_zero_padded, space_padded, zero_padded,
    zero_padded_starts_with_digit,
};
use crate::value::Value;
use vstd::prelude::*;
use vstd::string::*;

verus! {

/// Whether `model` says for every value the text that `render` returns for it.
pub open spec fn renders<R: Fn(Value) -> String>(render: R, model: spec_fn(Value) -> Seq<char>) -> bool {
    forall|value: Value, text: String| #[trigger]
        call_ensures(render, (value,), text) ==> text@ == model(value)
}

/// Whether an instruction was compiled from the same line as the one before it.
pub open spec fn repeats_line(chunk: ChunkView, offset: int) -> bool {
    0 < offset < chunk.code.len() && chunk.code[offset].line == chunk.code[offset - 1].line
}

/// The line column of an instruction: the line in four digits and a space,
/// or, for an instruction from the same line as the one before it, a stroke
/// in its place.
pub open spec fn line_column(chunk: ChunkView, offset: int) -> Seq<char> {
    if repeats_line(chunk, offset) {
        "   | "@
    } else {
        zero_padded(chunk.code[offset].line as nat, 4) + " "@
    }
}

/// The name of the instruction. A constant instruction has its name padded
/// to 16 characters, and behind it its value between single quotes; if the
/// pool has no such constant, it is listed by its name alone.
pub open spec fn operation_column(
    chunk: ChunkView,
    offset: int,
    show: spec_fn(Value) -> Seq<char>,
) -> Seq<char> {
    let op = chunk.code[offset].opcode;
    match op {
        OpCode::Constant(index) => if index < chunk.constants.len() {
            space_padded(op.name(), 16) + " '"@ + show(chunk.constants[index as int]) + "'"@
        } else {
            op.name()
        },
        _ => op.name(),
    }
}

/// The line of the listing for one instruction: its offset in four digits,
/// its line column and its operation.
pub open spec fn instruction_text(
    chunk: ChunkView,
    offset: int,
    show: spec_fn(Value) -> Seq<char>,
) -> Seq<char> {
    zero_padded(offset as nat, 4) + " "@ + line_column(chunk, offset) + operation_column(
        chunk,
        offset,
        show,
    )
}

/// The lines for the first `count` instructions, each with a newline behind it.
pub open spec fn lines(chunk: ChunkView, count: int, show: spec_fn(Value) -> Seq<char>) -> Seq<char>
    decreases count,
{
    if count <= 0 {
        Seq::empty()
    } else {
        lines(chunk, count - 1, show) + instruction_text(chunk, count - 1, show) + "\n"@
    }
}

/// The listing of a chunk: a heading with its name, then a line for each
/// instruction in program order.
pub open spec fn listing(chunk: ChunkView, name: Seq<char>, show: spec_fn(Value) -> Seq<char>) -> Seq<
    char,
> {
    "== "@ + name + " ==\n"@ + lines(chunk, chunk.code.len() as int, show)
}

/// Appends the line column of the instruction at `offset`.
fn push_line_column(chunk: &Chunk, offset: usize, f: &mut String)
    requires
        offset < chunk.bytecode@.len(),
    ensures
        final(f)@ == old(f)@ + line_column(chunk@, offset as int),
{
    let line = chunk.bytecode[offset].line;
    if offset > 0 && chunk.bytecode[offset - 1].line == line {
        f.append("   | ");
    } else {
        let ghost before = f@;
        push_zero_padded(f, line as u64, 4);
        f.append(" ");
        assert(f@ == before + (zero_padded(line as nat, 4) + " "@));
    }
}

/// Appends the operation column of the instruction at `offset`.
fn push_operation_column<R: Fn(Value) -> String>(
    chunk: &Chunk,
    offset: usize,
    f: &mut String,
    render: &R,
)
    requires
        offset < chunk.bytecode@.len(),
        forall|value: Value| call_requires(*render, (value,)),
    ensures
        forall|show: spec_fn(Value) -> Seq<char>| #[trigger]
            renders(*render, show) ==> final(f)@ == old(f)@ + operation_column(
                chunk@,
                offset as int,
                show,
            ),
{
    let op = chunk.bytecode[offset].opcode;
    match op {
        OpCode::Constant(index) => {
            if (index as usize) < chunk.constants.len() {
                let ghost before = f@;
                let value = render(chunk.constants[index as usize]);
                push_space_padded(f, op.mnemonic(), 16);
                f.append(" '");
                f.append(value.as_str());
                f.append("'");
                assert(f@ == before + (space_padded(op.name(), 16) + " '"@ + value@ + "'"@));
            } else {
                f.append(op.mnemonic());
            }
        },
        _ => {
            f.append(op.mnemonic());
        },
    }
}

/// Appends the line for the instruction at `offset`, without a newline, and
/// returns the offset of the next instruction. `render` writes a value.
pub fn disassemble_instruction<R: Fn(Value) -> String>(
    chunk: &Chunk,
    offset: usize,
    f: &mut String,
    render: &R,
) -> (next: usize)
    requires
        offset < chunk.bytecode@.len(),
        forall|value: Value| call_requires(*render, (value,)),
    ensures
        next == offset + 1,
        forall|show: spec_fn(Value) -> Seq<char>| #[trigger]
            renders(*render, show) ==> final(f)@ == old(f)@ + instruction_text(
                chunk@,
                offset as int,
                show,
            ),
{
    push_zero_padded(f, offset as u64, 4);
    f.append(" ");
    push_line_column(chunk, offset, f);
    let ghost prefix = f@;
    assert(prefix == old(f)@ + (zero_padded(offset as nat, 4) + " "@ + line_column(
        chunk@,
        offset as int,
    )));
    push_operation_column(chunk, offset, f, render);
    assert forall|show: spec_fn(Value) -> Seq<char>| #[trigger]
        renders(*render, show) implies f@ == old(f)@ + instruction_text(
        chunk@,
        offset as int,
        show,
    ) by {
        let operation = operation_column(chunk@, offset as int, show);
        let front = zero_padded(offset as nat, 4) + " "@ + line_column(chunk@, offset as int);
        assert(f@ == prefix + operation);
        assert((old(f)@ + front) + operation == old(f)@ + (front + operation));
    }
    assert(offset < chunk.bytecode.len());
    offset + 1
}

/// The listing of a chunk under the given name. `render` writes a value.
pub fn disassemble_chunk<R: Fn(Value) -> String>(chunk: &Chunk, name: &str, render: R) -> (text:
    String)
    requires
        forall|value: Value| call_requires(render, (value,)),
    ensures
        forall|show: spec_fn(Value) -> Seq<char>| #[trigger]
            renders(render, show) ==> text@ == listing(chunk@, name@, show),
{
    let mut output = String::from_str("== ");
    output.append(name);
    output.append(" ==\n");
    let ghost heading = output@;
    let mut offset: usize = 0;
    while offset < chunk.bytecode.len()
        invariant
            offset <= chunk.bytecode@.len(),
            heading == "== "@ + name@ + " ==\n"@,
            forall|value: Value| call_requires(render, (value,)),
            forall|show: spec_fn(Value) -> Seq<char>| #[trigger]
                renders(render, show) ==> output@ == heading + lines(chunk@, offset as int, show),
        decreases chunk.bytecode@.len() - offset,
    {
        let ghost before = output@;
        let ghost at = offset;
        offset = disassemble_instruction(chunk, offset, &mut output, &render);
        push_char(&mut output, '\n');
        proof {
            reveal_strlit("\n");
            assert("\n"@ == seq!['\n']);
            assert forall|show: spec_fn(Value) -> Seq<char>| #[trigger]
                renders(render, show) implies output@ == heading + lines(
                chunk@,
                offset as int,
                show,
            ) by {
                assert(output@ == before + instruction_text(chunk@, at as int, show) + "\n"@);
                assert(output@ == heading + (lines(chunk@, at as int, show) + instruction_text(
                    chunk@,
                    at as int,
                    show,
                ) + "\n"@));
            }
        }
    }
    output
}

/// Lines are run-length compressed: an instruction from the same line as the
/// one before it shows a stroke in its line column, every other one shows
/// its line in digits, and the two cannot be mistaken for each other.
pub proof fn line_column_compresses(chunk: ChunkView, offset: int)
    requires
        0 <= offset < chunk.code.len(),
    ensures
        repeats_line(chunk, offset) <==> line_column(chunk, offset) == "   | "@,
        !repeats_line(chunk, offset) ==> line_column(chunk, offset) == zero_padded(
            chunk.code[offset].line as nat,
            4,
        ) + " "@,
        offset == 0 ==> !repeats_line(chunk, offset),
{
    reveal_strlit("   | ");
    reveal_strlit(" ");
    let number = zero_padded(chunk.code[offset].line as nat, 4);
    zero_padded_starts_with_digit(chunk.code[offset].line as nat, 4);
    assert((number + " "@)[0] == number[0]);
    assert("   | "@[0] == ' ');
}

} // verus!
