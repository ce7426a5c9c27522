//! What a program means: the code that is compiled from an expression
//! computes the value of the expression.

use crate::chunk::{ChunkView, Instruction, CONSTANTS_MAX};
use crate::compiler::expression::{
    compiling_accepts_the_well_formed, well_formed_expressions_compile, Expr,
};
use crate::compiler::grammar::compile_tokens;
use crate::compiler::lexical::{scan_all_leaves_the_end_out, tokens_of};
use crate::compiler::token::{kinds, TokenView};
use crate::compiler::compile_spec;
use crate::op_codes::OpCode;
use crate::value::Value;
use crate::vm::{execute, run, Effect, InterpretError, Run, STACK_MAX};
use vstd::prelude::*;

verus! {

/// The chunk that nothing has been written to.
pub open spec fn empty_chunk() -> ChunkView {
    ChunkView { code: Seq::empty(), constants: Seq::empty() }
}

/// Whether a chunk holds the code of an expression from the instruction `ip`
/// on and its numbers from the place `first` of the pool on.
pub open spec fn holds(chunk: ChunkView, ip: int, first: int, e: Expr) -> bool {
    &&& 0 <= ip
    &&& ip + e.postfix(first).len() <= chunk.code.len()
    &&& forall|i: int|
        0 <= i < e.postfix(first).len() ==> (#[trigger] chunk.code[ip + i]).opcode == e.postfix(
            first,
        )[i]
    &&& 0 <= first
    &&& first + e.numbers().len() <= chunk.constants.len()
    &&& first + e.numbers().len() <= CONSTANTS_MAX
    &&& forall|k: int|
        0 <= k < e.numbers().len() ==> #[trigger] chunk.constants[first + k] == e.numbers()[k]
}

/// The code of an expression has one instruction or more, and an expression
/// has one number or more.
pub proof fn postfix_is_not_empty(e: Expr, first: int)
    ensures
        e.postfix(first).len() >= 1,
        e.numbers().len() >= 1,
        e.height() >= 1,
    decreases e,
{
    match e {
        Expr::Number(_) => {},
        Expr::Group(inner) => {
            postfix_is_not_empty(*inner, first);
        },
        Expr::Negate(inner) => {
            postfix_is_not_empty(*inner, first);
        },
        Expr::Binary(_, left, right) => {
            postfix_is_not_empty(*left, first);
            postfix_is_not_empty(*right, first + left.numbers().len());
        },
    }
}

/// The parts of an expression stand in a chunk where its code says.
proof fn parts_are_held(chunk: ChunkView, ip: int, first: int, e: Expr)
    requires
        holds(chunk, ip, first, e),
    ensures
        match e {
            Expr::Number(value) => chunk.code[ip].opcode == OpCode::Constant(first as u8)
                && chunk.constants[first] == value,
            Expr::Group(inner) => holds(chunk, ip, first, *inner),
            Expr::Negate(inner) => holds(chunk, ip, first, *inner) && chunk.code[ip
                + inner.postfix(first).len()].opcode == OpCode::Negate,
            Expr::Binary(op, left, right) => {
                &&& holds(chunk, ip, first, *left)
                &&& holds(
                    chunk,
                    ip + left.postfix(first).len(),
                    first + left.numbers().len(),
                    *right,
                )
                &&& chunk.code[ip + left.postfix(first).len() + right.postfix(
                    first + left.numbers().len(),
                ).len()].opcode == op
            },
        },
{
    let code = e.postfix(first);
    match e {
        Expr::Number(value) => {
            assert(chunk.code[ip + 0].opcode == code[0]);
            assert(chunk.constants[first + 0] == e.numbers()[0]);
        },
        Expr::Group(inner) => {},
        Expr::Negate(inner) => {
            let count = inner.postfix(first).len() as int;
            assert forall|i: int| 0 <= i < count implies (#[trigger] chunk.code[ip + i]).opcode
                == inner.postfix(first)[i] by {
                assert(code[i] == inner.postfix(first)[i]);
            }
            assert(chunk.code[ip + count].opcode == code[count]);
        },
        Expr::Binary(op, left, right) => {
            let count = left.postfix(first).len() as int;
            let second = first + left.numbers().len();
            let more = right.postfix(second).len() as int;
            assert forall|i: int| 0 <= i < count implies (#[trigger] chunk.code[ip + i]).opcode
                == left.postfix(first)[i] by {
                assert(code[i] == left.postfix(first)[i]);
            }
            assert forall|i: int| 0 <= i < more implies (#[trigger] chunk.code[ip + count
                + i]).opcode == right.postfix(second)[i] by {
                assert(chunk.code[ip + (count + i)].opcode == code[count + i]);
                assert(code[count + i] == right.postfix(second)[i]);
            }
            assert(chunk.code[ip + (count + more)].opcode == code[count + more]);
            assert forall|k: int| 0 <= k < left.numbers().len() implies #[trigger] chunk.constants[first
                + k] == left.numbers()[k] by {
                assert(e.numbers()[k] == left.numbers()[k]);
            }
            assert forall|k: int| 0 <= k < right.numbers().len() implies #[trigger] chunk.constants[second
                + k] == right.numbers()[k] by {
                assert(chunk.constants[first + (left.numbers().len() + k)] == e.numbers()[left.numbers().len()
                    + k]);
            }
        },
    }
}

/// Running the code of an expression puts the value of the expression on
/// the stack and goes on behind the code, if the stack has room for the
/// values that the code needs at one time.
pub proof fn code_computes_value(
    chunk: ChunkView,
    ip: int,
    first: int,
    e: Expr,
    stack: Seq<Value>,
    alu: spec_fn(OpCode, Value, Value) -> Value,
)
    requires
        e.well_formed(),
        holds(chunk, ip, first, e),
        stack.len() + e.height() <= STACK_MAX,
    ensures
        run(chunk, ip, stack, alu) == run(
            chunk,
            ip + e.postfix(first).len(),
            stack.push(e.value(alu)),
            alu,
        ),
    decreases e,
{
    parts_are_held(chunk, ip, first, e);
    postfix_is_not_empty(e, first);
    match e {
        Expr::Number(value) => {
            assert(first as u8 == first);
            assert(execute(chunk.code[ip].opcode, chunk.constants, stack, alu) == Effect::Next(
                stack.push(value),
            ));
        },
        Expr::Group(inner) => {
            code_computes_value(chunk, ip, first, *inner, stack, alu);
        },
        Expr::Negate(inner) => {
            code_computes_value(chunk, ip, first, *inner, stack, alu);
            let at = ip + inner.postfix(first).len();
            let found = stack.push(inner.value(alu));
            assert(found.take(found.len() - 1) == stack);
            assert(execute(chunk.code[at].opcode, chunk.constants, found, alu) == Effect::Next(
                stack.push(e.value(alu)),
            ));
        },
        Expr::Binary(op, left, right) => {
            let second = first + left.numbers().len();
            postfix_is_not_empty(*left, first);
            postfix_is_not_empty(*right, second);
            code_computes_value(chunk, ip, first, *left, stack, alu);
            let middle = ip + left.postfix(first).len();
            let one = stack.push(left.value(alu));
            code_computes_value(chunk, middle, second, *right, one, alu);
            let at = middle + right.postfix(second).len();
            let two = one.push(right.value(alu));
            assert(two.take(two.len() - 2) == stack);
            assert(execute(chunk.code[at].opcode, chunk.constants, two, alu) == Effect::Next(
                stack.push(e.value(alu)),
            ));
        },
    }
}

/// Compiling and running computes the value of the expression. Tokens that
/// write a well-formed expression compile into a chunk whose run ends at its
/// `Return` with the value of the expression as the result, and leaves the
/// stack empty, if the expression has no more numbers than the pool holds
/// and needs no more values at one time than the stack holds.
pub proof fn compiled_code_computes_the_expression(
    e: Expr,
    tokens: Seq<TokenView>,
    alu: spec_fn(OpCode, Value, Value) -> Value,
)
    requires
        e.well_formed(),
        kinds(tokens) == e.written(),
        e.numbers().len() <= CONSTANTS_MAX,
        e.height() <= STACK_MAX,
    ensures
        compile_tokens(tokens, empty_chunk()).error is None,
        run(compile_tokens(tokens, empty_chunk()).state.chunk, 0, Seq::empty(), alu) == (Run {
            ip: e.postfix(0).len() as int,
            stack: Seq::empty(),
            result: Ok(Some(e.value(alu))),
        }),
{
    well_formed_expressions_compile(e, tokens, empty_chunk());
    let chunk = compile_tokens(tokens, empty_chunk()).state.chunk;
    let code = e.postfix(0);
    assert(empty_chunk().opcodes() =~= Seq::<OpCode>::empty());
    assert(chunk.opcodes() == (Seq::<OpCode>::empty() + code).push(OpCode::Return));
    assert(chunk.opcodes().len() == chunk.code.len());
    assert(chunk.constants =~= e.numbers());
    assert forall|i: int| 0 <= i < code.len() implies (#[trigger] chunk.code[0 + i]).opcode
        == code[i] by {
        assert(chunk.opcodes()[i] == chunk.code[i].opcode);
    }
    assert(holds(chunk, 0, 0, e));
    let empty = Seq::<Value>::empty();
    code_computes_value(chunk, 0, 0, e, empty, alu);
    let found = empty.push(e.value(alu));
    assert(chunk.opcodes()[code.len() as int] == chunk.code[code.len() as int].opcode);
    assert(found.take(found.len() - 1) == empty);
    assert(execute(chunk.code[code.len() as int].opcode, chunk.constants, found, alu)
        == Effect::Halt(e.value(alu), empty));
}

/// A source whose tokens write a well-formed expression is a program that
/// computes the value of that expression.
pub proof fn programs_compute_their_expression(
    source: Seq<char>,
    e: Expr,
    decode: spec_fn(Seq<char>) -> Value,
    alu: spec_fn(OpCode, Value, Value) -> Value,
)
    requires
        tokens_of(source, decode) matches Ok(tokens) && kinds(tokens) == e.written(),
        e.well_formed(),
        e.numbers().len() <= CONSTANTS_MAX,
        e.height() <= STACK_MAX,
    ensures
        compile_spec(source, empty_chunk(), decode).error is None,
        run(compile_spec(source, empty_chunk(), decode).chunk, 0, Seq::empty(), alu).result == Ok::<
            Option<Value>,
            InterpretError,
        >(Some(e.value(alu))),
{
    match tokens_of(source, decode) {
        Ok(tokens) => {
            compiled_code_computes_the_expression(e, tokens, alu);
        },
        Err(_) => {},
    }
}

/// The programs are the well-formed expressions: a source compiles if and
/// only if it can be scanned and its tokens write a well-formed expression
/// whose numbers the pool has room for.
pub proof fn programs_are_well_formed_expressions(
    source: Seq<char>,
    chunk: ChunkView,
    decode: spec_fn(Seq<char>) -> Value,
)
    ensures
        compile_spec(source, chunk, decode).error is None <==> (tokens_of(source, decode) matches Ok(
            tokens,
        ) && exists|e: Expr|
            #[trigger] e.well_formed() && kinds(tokens) == e.written() && chunk.constants.len()
                + e.numbers().len() <= CONSTANTS_MAX),
{
    match tokens_of(source, decode) {
        Ok(tokens) => {
            scan_all_leaves_the_end_out(source, 0, decode);
            compiling_accepts_the_well_formed(tokens, chunk);
        },
        Err(_) => {},
    }
}

} // verus!
