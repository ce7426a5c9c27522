//! Expressions as trees: what the tokens of an expression are, which code
//! they compile to, and the proof that the parser produces that code.

use crate::chunk::{ChunkView, Instruction, CONSTANTS_MAX};
use crate::compiler::grammar::{
    binary_follows, binary_opcode, binary_spec, binds, compile_tokens, consume_spec,
    emit_constant_spec, expectation, expression_follows, expression_spec, grouping_follows, grouping_spec,
    infix_follows, infix_precedence, infix_spec, number_spec, operand_spec,
    parse_precedence_follows, parse_precedence_spec, unary_follows, unary_spec, ParserView,
    Precedence,
};
use crate::compiler::token::{kinds, TokenKind, TokenView};
use crate::op_codes::OpCode;
use crate::value::Value;
use vstd::prelude::*;

verus! {

/// An expression of the language.
pub enum Expr {
    /// A number.
    Number(Value),
    /// An expression in parentheses.
    Group(Box<Expr>),
    /// The negation of an expression.
    Negate(Box<Expr>),
    /// One of the four operations on two expressions, the left one first.
    Binary(OpCode, Box<Expr>, Box<Expr>),
}

/// The token that writes an operation on two operands.
pub open spec fn operator(op: OpCode) -> TokenKind {
    match op {
        OpCode::Subtraction => TokenKind::Minus,
        OpCode::Multiplication => TokenKind::Star,
        OpCode::Division => TokenKind::Slash,
        _ => TokenKind::Plus,
    }
}

impl Expr {
    /// The tokens that write the expression.
    pub open spec fn written(self) -> Seq<TokenKind>
        decreases self,
    {
        match self {
            Expr::Number(value) => seq![TokenKind::Number(value)],
            Expr::Group(inner) => seq![TokenKind::LeftParen] + inner.written() + seq![
                TokenKind::RightParen,
            ],
            Expr::Negate(inner) => seq![TokenKind::Minus] + inner.written(),
            Expr::Binary(op, left, right) => left.written() + seq![operator(op)] + right.written(),
        }
    }

    /// How tightly the expression holds together: a number or a group as
    /// tightly as can be, a negation as a unary operator, an operation as its
    /// operator.
    pub open spec fn binding(self) -> Precedence {
        match self {
            Expr::Number(_) => Precedence::Primary,
            Expr::Group(_) => Precedence::Primary,
            Expr::Negate(_) => Precedence::Unary,
            Expr::Binary(op, _, _) => infix_precedence(operator(op)),
        }
    }

    /// Whether the tokens of the expression group the way the tree does.
    /// What is negated binds at least as tightly as a unary operator. Of an
    /// operation, the left operand binds at least as tightly as the operator,
    /// so that operators of one precedence group to the left, and the right
    /// operand binds tighter. Anything else has to stand in parentheses.
    pub open spec fn well_formed(self) -> bool
        decreases self,
    {
        match self {
            Expr::Number(_) => true,
            Expr::Group(inner) => inner.well_formed(),
            Expr::Negate(inner) => inner.well_formed() && inner.binding().level()
                >= Precedence::Unary.level(),
            Expr::Binary(op, left, right) => {
                &&& op.is_binary()
                &&& left.well_formed()
                &&& right.well_formed()
                &&& left.binding().level() >= infix_precedence(operator(op)).level()
                &&& right.binding().level() > infix_precedence(operator(op)).level()
            },
        }
    }

    /// The numbers of the expression, from left to right.
    pub open spec fn numbers(self) -> Seq<Value>
        decreases self,
    {
        match self {
            Expr::Number(value) => seq![value],
            Expr::Group(inner) => inner.numbers(),
            Expr::Negate(inner) => inner.numbers(),
            Expr::Binary(_, left, right) => left.numbers() + right.numbers(),
        }
    }

    /// The code of the expression: operands before their operation, the left
    /// operand first. The numbers are constants, which stand in the pool from
    /// the place `first` on.
    pub open spec fn postfix(self, first: int) -> Seq<OpCode>
        decreases self,
    {
        match self {
            Expr::Number(_) => seq![OpCode::Constant(first as u8)],
            Expr::Group(inner) => inner.postfix(first),
            Expr::Negate(inner) => inner.postfix(first).push(OpCode::Negate),
            Expr::Binary(op, left, right) => (left.postfix(first) + right.postfix(
                first + left.numbers().len(),
            )).push(op),
        }
    }

    /// The value of the expression, given the function that does the
    /// arithmetic.
    pub open spec fn value(self, alu: spec_fn(OpCode, Value, Value) -> Value) -> Value
        decreases self,
    {
        match self {
            Expr::Number(value) => value,
            Expr::Group(inner) => inner.value(alu),
            Expr::Negate(inner) => inner.value(alu).negated(),
            Expr::Binary(op, left, right) => alu(op, left.value(alu), right.value(alu)),
        }
    }

    /// The most values that the code of the expression has on the stack at
    /// one time.
    pub open spec fn height(self) -> nat
        decreases self,
    {
        match self {
            Expr::Number(_) => 1,
            Expr::Group(inner) => inner.height(),
            Expr::Negate(inner) => inner.height(),
            Expr::Binary(_, left, right) => if left.height() >= 1 + right.height() {
                left.height()
            } else {
                1 + right.height()
            },
        }
    }

    /// The instructions of the expression when it is written by the tokens
    /// from `start` on: its code, each instruction on the line of the token
    /// read last when it is written.
    pub open spec fn instructions(self, tokens: Seq<TokenView>, start: int, first: int) -> Seq<
        Instruction,
    >
        decreases self,
    {
        let last = tokens[start + self.written().len() - 1].line as u32;
        match self {
            Expr::Number(_) => seq![Instruction { opcode: OpCode::Constant(first as u8), line: last }],
            Expr::Group(inner) => inner.instructions(tokens, start + 1, first),
            Expr::Negate(inner) => inner.instructions(tokens, start + 1, first).push(
                Instruction { opcode: OpCode::Negate, line: last },
            ),
            Expr::Binary(op, left, right) => (left.instructions(tokens, start, first)
                + right.instructions(
                tokens,
                start + left.written().len() + 1,
                first + left.numbers().len(),
            )).push(Instruction { opcode: op, line: last }),
        }
    }

    /// Whether the tokens from `start` on write the expression.
    pub open spec fn stands_in(self, tokens: Seq<TokenView>, start: int) -> bool {
        &&& 0 <= start
        &&& start + self.written().len() <= tokens.len()
        &&& forall|i: int|
            0 <= i < self.written().len() ==> (#[trigger] tokens[start + i]).kind
                == self.written()[i]
    }

    /// The parser after it has compiled the expression whose first token it
    /// had read.
    pub open spec fn compiled_by(self, p: ParserView) -> ParserView {
        ParserView {
            tokens: p.tokens,
            current: p.current - 1 + self.written().len(),
            chunk: ChunkView {
                code: p.chunk.code + self.instructions(
                    p.tokens,
                    p.current - 1,
                    p.chunk.constants.len() as int,
                ),
                constants: p.chunk.constants + self.numbers(),
            },
        }
    }
}

/// An expression is written by at least one token, and its first token is a
/// number, a `(` or a `-`.
pub proof fn written_begins(e: Expr)
    ensures
        e.written().len() >= 1,
        e.written()[0] is Number || e.written()[0] is LeftParen || e.written()[0] is Minus,
    decreases e,
{
    match e {
        Expr::Binary(_, left, _) => {
            written_begins(*left);
        },
        _ => {},
    }
}

/// The instructions of an expression have its code as their opcodes.
pub proof fn instructions_are_postfix(e: Expr, tokens: Seq<TokenView>, start: int, first: int)
    ensures
        e.instructions(tokens, start, first).map_values(
            |instruction: Instruction| instruction.opcode,
        ) == e.postfix(first),
    decreases e,
{
    let opcode = |instruction: Instruction| instruction.opcode;
    match e {
        Expr::Number(_) => {
            assert(e.instructions(tokens, start, first).map_values(opcode) =~= e.postfix(first));
        },
        Expr::Group(inner) => {
            instructions_are_postfix(*inner, tokens, start + 1, first);
        },
        Expr::Negate(inner) => {
            instructions_are_postfix(*inner, tokens, start + 1, first);
            assert(e.instructions(tokens, start, first).map_values(opcode) =~= e.postfix(first));
        },
        Expr::Binary(op, left, right) => {
            instructions_are_postfix(*left, tokens, start, first);
            instructions_are_postfix(
                *right,
                tokens,
                start + left.written().len() + 1,
                first + left.numbers().len(),
            );
            assert(e.instructions(tokens, start, first).map_values(opcode) =~= e.postfix(first));
        },
    }
}

/// No token binds tighter than a factor does.
proof fn nothing_binds_above_factor(kind: TokenKind, precedence: Precedence)
    ensures
        binds(kind, precedence) ==> precedence.level() <= Precedence::Factor.level(),
        binds(kind, precedence) ==> kind is Plus || kind is Minus || kind is Star || kind is Slash,
{
}

/// A token that does not bind at a precedence does not bind at a tighter one.
proof fn binds_looser(kind: TokenKind, tight: Precedence, loose: Precedence)
    requires
        loose.level() <= tight.level(),
    ensures
        binds(kind, tight) ==> binds(kind, loose),
{
}

/// The parts of an expression stand where its tokens say.
proof fn parts_stand_in(e: Expr, tokens: Seq<TokenView>, start: int)
    requires
        e.stands_in(tokens, start),
    ensures
        match e {
            Expr::Number(value) => tokens[start].kind == TokenKind::Number(value),
            Expr::Group(inner) => {
                &&& tokens[start].kind is LeftParen
                &&& inner.stands_in(tokens, start + 1)
                &&& tokens[start + 1 + inner.written().len()].kind is RightParen
                &&& e.written().len() == inner.written().len() + 2
            },
            Expr::Negate(inner) => {
                &&& tokens[start].kind is Minus
                &&& inner.stands_in(tokens, start + 1)
                &&& e.written().len() == inner.written().len() + 1
            },
            Expr::Binary(op, left, right) => {
                &&& left.stands_in(tokens, start)
                &&& tokens[start + left.written().len()].kind == operator(op)
                &&& right.stands_in(tokens, start + left.written().len() + 1)
                &&& e.written().len() == left.written().len() + 1 + right.written().len()
            },
        },
{
    match e {
        Expr::Number(value) => {
            assert(tokens[start + 0].kind == e.written()[0]);
        },
        Expr::Group(inner) => {
            let count = inner.written().len() as int;
            assert(tokens[start + 0].kind == e.written()[0]);
            assert(tokens[start + (count + 1)].kind == e.written()[count + 1]);
            assert forall|i: int| 0 <= i < count implies (#[trigger] tokens[start + 1 + i]).kind
                == inner.written()[i] by {
                assert(tokens[start + (i + 1)].kind == e.written()[i + 1]);
            }
        },
        Expr::Negate(inner) => {
            let count = inner.written().len() as int;
            assert(tokens[start + 0].kind == e.written()[0]);
            assert forall|i: int| 0 <= i < count implies (#[trigger] tokens[start + 1 + i]).kind
                == inner.written()[i] by {
                assert(tokens[start + (i + 1)].kind == e.written()[i + 1]);
            }
        },
        Expr::Binary(op, left, right) => {
            let count = left.written().len() as int;
            let more = right.written().len() as int;
            assert forall|i: int| 0 <= i < count implies (#[trigger] tokens[start + i]).kind
                == left.written()[i] by {
                assert(tokens[start + i].kind == e.written()[i]);
            }
            assert(tokens[start + count].kind == e.written()[count]);
            assert forall|i: int| 0 <= i < more implies (#[trigger] tokens[start + count + 1
                + i]).kind == right.written()[i] by {
                assert(tokens[start + (count + 1 + i)].kind == e.written()[count + 1 + i]);
            }
        },
    }
}

/// The parser compiles a well-formed expression to its instructions. When it
/// has read the first token of the expression, and no token behind the
/// expression could still belong to it, `parse_precedence` at a precedence
/// that the expression has compiles the expression and then goes on with the
/// operators behind it.
pub proof fn parser_compiles_expression(e: Expr, p: ParserView, precedence: Precedence)
    requires
        e.well_formed(),
        e.stands_in(p.tokens, p.current - 1),
        precedence.level() <= e.binding().level(),
        p.current - 1 + e.written().len() < p.tokens.len() ==> !binds(
            p.tokens[p.current - 1 + e.written().len()].kind,
            e.binding().tighter(),
        ),
        p.chunk.constants.len() + e.numbers().len() <= CONSTANTS_MAX,
    ensures
        parse_precedence_spec(p, precedence) == infix_spec(e.compiled_by(p), precedence),
        e.compiled_by(p).follows(p),
    decreases e,
{
    let tokens = p.tokens;
    let start = p.current - 1;
    let end = start + e.written().len();
    let first = p.chunk.constants.len() as int;
    written_begins(e);
    parts_stand_in(e, tokens, start);
    assert(p.previous() == tokens[start]);
    match e {
        Expr::Number(value) => {
            assert(number_spec(p) == emit_constant_spec(p, value));
            assert(number_spec(p).state.chunk.code =~= e.compiled_by(p).chunk.code);
            assert(number_spec(p).state.chunk.constants =~= e.compiled_by(p).chunk.constants);
            assert(number_spec(p).state == e.compiled_by(p));
        },
        Expr::Group(inner) => {
            written_begins(*inner);
            assert(tokens[start + 1 + 0].kind == inner.written()[0]);
            let opened = operand_spec(p);
            assert(opened == p.advanced().done());
            let q = opened.state;
            nothing_binds_above_factor(tokens[end - 1].kind, inner.binding().tighter());
            parser_compiles_expression(*inner, q, Precedence::Assignment);
            let body = inner.compiled_by(q);
            assert(infix_spec(body, Precedence::Assignment) == body.done());
            assert(expression_spec(q) == body.done());
            let closed = consume_spec(body, TokenKind::RightParen, "Expect ')' after expression"@);
            assert(closed == body.advanced().done());
            assert(grouping_spec(p) == closed);
            assert(closed.state.chunk.code =~= e.compiled_by(p).chunk.code);
            assert(closed.state == e.compiled_by(p));
        },
        Expr::Negate(inner) => {
            written_begins(*inner);
            assert(tokens[start + 1 + 0].kind == inner.written()[0]);
            let opened = operand_spec(p);
            assert(opened == p.advanced().done());
            let q = opened.state;
            if end < tokens.len() {
                nothing_binds_above_factor(tokens[end].kind, inner.binding().tighter());
                nothing_binds_above_factor(tokens[end].kind, Precedence::Unary);
            }
            parser_compiles_expression(*inner, q, Precedence::Unary);
            let body = inner.compiled_by(q);
            assert(infix_spec(body, Precedence::Unary) == body.done());
            assert(unary_spec(p) == body.emit(OpCode::Negate).done());
            assert(body.emit(OpCode::Negate).chunk.code =~= e.compiled_by(p).chunk.code);
            assert(body.emit(OpCode::Negate) == e.compiled_by(p));
        },
        Expr::Binary(op, left, right) => {
            let strength = infix_precedence(operator(op));
            let middle = start + left.written().len();
            written_begins(*right);
            assert(tokens[middle + 1 + 0].kind == right.written()[0]);
            // The left operand, behind which the operator stands.
            parser_compiles_expression(*left, p, precedence);
            let a = left.compiled_by(p);
            assert(binds(tokens[middle].kind, precedence));
            // The operator and the right operand.
            let b = a.advanced();
            assert(b.previous() == tokens[middle]);
            let opened = operand_spec(b);
            assert(opened == b.advanced().done());
            let q = opened.state;
            if end < tokens.len() {
                binds_looser(tokens[end].kind, right.binding().tighter(), strength.tighter());
            }
            parser_compiles_expression(*right, q, strength.tighter());
            let body = right.compiled_by(q);
            assert(infix_spec(body, strength.tighter()) == body.done());
            assert(binary_opcode(operator(op)) == Some(op));
            assert(binary_spec(b) == body.emit(op).done());
            assert(body.emit(op).chunk.code =~= e.compiled_by(p).chunk.code);
            assert(body.emit(op).chunk.constants =~= e.compiled_by(p).chunk.constants);
            assert(body.emit(op) == e.compiled_by(p));
            assert(infix_spec(a, precedence) == infix_spec(e.compiled_by(p), precedence));
        },
    }
}

/// Compiling is correct for every well-formed expression: the tokens that
/// write it compile, as long as the pool has room for its numbers, and the
/// code is the code of the expression with a `Return` behind it. With it,
/// precedence, grouping to the left and parentheses are what `well_formed`
/// says they are.
pub proof fn well_formed_expressions_compile(e: Expr, tokens: Seq<TokenView>, chunk: ChunkView)
    requires
        e.well_formed(),
        kinds(tokens) == e.written(),
        chunk.constants.len() + e.numbers().len() <= CONSTANTS_MAX,
    ensures
        compile_tokens(tokens, chunk).error is None,
        compile_tokens(tokens, chunk).state.chunk.opcodes() == (chunk.opcodes() + e.postfix(
            chunk.constants.len() as int,
        )).push(OpCode::Return),
        compile_tokens(tokens, chunk).state.chunk.constants == chunk.constants + e.numbers(),
{
    let start = ParserView { tokens, current: 0, chunk };
    let p = start.advanced();
    written_begins(e);
    assert(kinds(tokens).len() == tokens.len());
    assert forall|i: int| 0 <= i < e.written().len() implies (#[trigger] tokens[0 + i]).kind
        == e.written()[i] by {
        assert(kinds(tokens)[i] == tokens[i].kind);
    }
    parser_compiles_expression(e, p, Precedence::Assignment);
    let body = e.compiled_by(p);
    assert(infix_spec(body, Precedence::Assignment) == body.done());
    assert(expression_spec(p) == body.done());
    let end = consume_spec(body, TokenKind::Eof, "Expect end of expression"@);
    assert(end == body.done());
    let last = body.emit(OpCode::Return);
    assert(compile_tokens(tokens, chunk) == last.done());
    instructions_are_postfix(e, tokens, 0, chunk.constants.len() as int);
    assert(last.chunk.opcodes() =~= (chunk.opcodes() + e.postfix(chunk.constants.len() as int)).push(
        OpCode::Return,
    ));
}

/// Tokens that write the parts of an expression, one behind the other,
/// write the expression.
proof fn whole_stands_in(e: Expr, tokens: Seq<TokenView>, start: int)
    requires
        0 <= start,
        match e {
            Expr::Number(value) => start < tokens.len() && tokens[start].kind == TokenKind::Number(
                value,
            ),
            Expr::Group(inner) => {
                &&& start < tokens.len()
                &&& tokens[start].kind is LeftParen
                &&& inner.stands_in(tokens, start + 1)
                &&& start + 1 + inner.written().len() < tokens.len()
                &&& tokens[start + 1 + inner.written().len()].kind is RightParen
            },
            Expr::Negate(inner) => {
                &&& start < tokens.len()
                &&& tokens[start].kind is Minus
                &&& inner.stands_in(tokens, start + 1)
            },
            Expr::Binary(op, left, right) => {
                &&& left.stands_in(tokens, start)
                &&& start + left.written().len() < tokens.len()
                &&& tokens[start + left.written().len()].kind == operator(op)
                &&& right.stands_in(tokens, start + left.written().len() + 1)
            },
        },
    ensures
        e.stands_in(tokens, start),
{
    match e {
        Expr::Number(value) => {},
        Expr::Group(inner) => {
            let count = inner.written().len() as int;
            assert forall|i: int| 0 <= i < e.written().len() implies (#[trigger] tokens[start
                + i]).kind == e.written()[i] by {
                if 1 <= i <= count {
                    assert(tokens[start + 1 + (i - 1)].kind == inner.written()[i - 1]);
                }
            }
        },
        Expr::Negate(inner) => {
            assert forall|i: int| 0 <= i < e.written().len() implies (#[trigger] tokens[start
                + i]).kind == e.written()[i] by {
                if 1 <= i {
                    assert(tokens[start + 1 + (i - 1)].kind == inner.written()[i - 1]);
                }
            }
        },
        Expr::Binary(op, left, right) => {
            let count = left.written().len() as int;
            assert forall|i: int| 0 <= i < e.written().len() implies (#[trigger] tokens[start
                + i]).kind == e.written()[i] by {
                if i < count {
                    assert(tokens[start + i].kind == left.written()[i]);
                } else if i > count {
                    assert(tokens[start + count + 1 + (i - count - 1)].kind == right.written()[i
                        - count - 1]);
                }
            }
        },
    }
}

/// What the parser has compiled without an error is a well-formed
/// expression: the one that this proof hands out. It begins with the token
/// that the parser had read, it binds at least as tightly as `precedence`,
/// and the token behind it, if there is one, is no operator that binds as
/// tightly as that.
pub proof fn expression_of_parse(p: ParserView, precedence: Precedence) -> (e: Expr)
    requires
        p.wf(),
        precedence.level() <= Precedence::Unary.level(),
        parse_precedence_spec(p, precedence).error is None,
    ensures
        e.well_formed(),
        e.stands_in(p.tokens, p.current - 1),
        parse_precedence_spec(p, precedence).state == e.compiled_by(p),
        p.chunk.constants.len() + e.numbers().len() <= CONSTANTS_MAX,
        precedence.level() <= e.binding().level(),
        p.current - 1 + e.written().len() < p.tokens.len() ==> !binds(
            p.tokens[p.current - 1 + e.written().len()].kind,
            precedence,
        ),
    decreases p.tokens.len() - p.current, 4nat,
{
    let tokens = p.tokens;
    let start = p.current - 1;
    let first = match p.previous().kind {
        TokenKind::Number(_) => number_spec(p),
        TokenKind::LeftParen => grouping_spec(p),
        TokenKind::Minus => unary_spec(p),
        _ => p.failed(expectation("Expect expression"@, p.previous().line)),
    };
    let begin: Expr;
    match p.previous().kind {
        TokenKind::Number(value) => {
            begin = Expr::Number(value);
            assert(number_spec(p) == emit_constant_spec(p, value));
            assert(first.state.chunk.code =~= begin.compiled_by(p).chunk.code);
            assert(first.state.chunk.constants =~= begin.compiled_by(p).chunk.constants);
            whole_stands_in(begin, tokens, start);
        },
        TokenKind::LeftParen => {
            grouping_follows(p);
            let opened = operand_spec(p);
            let q = opened.state;
            expression_follows(q);
            let inner = expression_of_parse(q, Precedence::Assignment);
            begin = Expr::Group(Box::new(inner));
            let body = inner.compiled_by(q);
            assert(expression_spec(q).state == body);
            let closed = consume_spec(body, TokenKind::RightParen, "Expect ')' after expression"@);
            assert(grouping_spec(p) == closed);
            whole_stands_in(begin, tokens, start);
            assert(closed.state.chunk.code =~= begin.compiled_by(p).chunk.code);
            assert(closed.state == begin.compiled_by(p));
        },
        TokenKind::Minus => {
            unary_follows(p);
            let opened = operand_spec(p);
            let q = opened.state;
            parse_precedence_follows(q, Precedence::Unary);
            let inner = expression_of_parse(q, Precedence::Unary);
            begin = Expr::Negate(Box::new(inner));
            let body = inner.compiled_by(q);
            whole_stands_in(begin, tokens, start);
            assert(unary_spec(p) == body.emit(OpCode::Negate).done());
            assert(body.emit(OpCode::Negate).chunk.code =~= begin.compiled_by(p).chunk.code);
            assert(body.emit(OpCode::Negate) == begin.compiled_by(p));
        },
        _ => {
            begin = Expr::Number(Value { bits: 0 });
        },
    }
    let end = start + begin.written().len();
    if end < tokens.len() {
        nothing_binds_above_factor(tokens[end].kind, begin.binding().tighter());
    }
    expression_of_operators(begin.compiled_by(p), precedence, begin, p)
}

/// What the parser has compiled without an error when it went on from an
/// expression through the operators behind it is a well-formed expression
/// again: the one that this proof hands out.
pub proof fn expression_of_operators(
    p: ParserView,
    precedence: Precedence,
    left: Expr,
    origin: ParserView,
) -> (e: Expr)
    requires
        origin.wf(),
        1 <= origin.current,
        left.well_formed(),
        left.stands_in(origin.tokens, origin.current - 1),
        p == left.compiled_by(origin),
        origin.chunk.constants.len() + left.numbers().len() <= CONSTANTS_MAX,
        precedence.level() <= left.binding().level(),
        precedence.level() <= Precedence::Unary.level(),
        p.current < p.tokens.len() ==> !binds(p.tokens[p.current].kind, left.binding().tighter()),
        infix_spec(p, precedence).error is None,
    ensures
        e.well_formed(),
        e.stands_in(origin.tokens, origin.current - 1),
        infix_spec(p, precedence).state == e.compiled_by(origin),
        origin.chunk.constants.len() + e.numbers().len() <= CONSTANTS_MAX,
        precedence.level() <= e.binding().level(),
        origin.current - 1 + e.written().len() < origin.tokens.len() ==> !binds(
            origin.tokens[origin.current - 1 + e.written().len()].kind,
            precedence,
        ),
    decreases p.tokens.len() - p.current, 3nat,
{
    let tokens = p.tokens;
    let start = origin.current - 1;
    if p.current < tokens.len() && binds(tokens[p.current].kind, precedence) {
        let sign = tokens[p.current].kind;
        let strength = infix_precedence(sign);
        let b = p.advanced();
        assert(b.previous() == tokens[p.current]);
        binary_follows(b);
        let opened = operand_spec(b);
        let q = opened.state;
        parse_precedence_follows(q, strength.tighter());
        let right = expression_of_parse(q, strength.tighter());
        let op = binary_opcode(sign)->0;
        assert(operator(op) == sign);
        let whole = Expr::Binary(op, Box::new(left), Box::new(right));
        let body = right.compiled_by(q);
        whole_stands_in(whole, tokens, start);
        assert(binary_spec(b) == body.emit(op).done());
        assert(body.emit(op).chunk.code =~= whole.compiled_by(origin).chunk.code);
        assert(body.emit(op).chunk.constants =~= whole.compiled_by(origin).chunk.constants);
        assert(body.emit(op) == whole.compiled_by(origin));
        expression_of_operators(whole.compiled_by(origin), precedence, whole, origin)
    } else {
        left
    }
}

/// The tokens that compile are exactly those that write a well-formed
/// expression whose numbers the pool has room for. No end-of-input token
/// stands among the tokens, as among those that `scan_all` hands out.
pub proof fn compiling_accepts_the_well_formed(tokens: Seq<TokenView>, chunk: ChunkView)
    requires
        forall|i: int| 0 <= i < tokens.len() ==> !(#[trigger] tokens[i].kind is Eof),
    ensures
        compile_tokens(tokens, chunk).error is None <==> exists|e: Expr|
            #[trigger] e.well_formed() && kinds(tokens) == e.written() && chunk.constants.len()
                + e.numbers().len() <= CONSTANTS_MAX,
{
    if compile_tokens(tokens, chunk).error is None {
        let start = ParserView { tokens, current: 0, chunk };
        let p = start.advanced();
        expression_follows(p);
        let e = expression_of_parse(p, Precedence::Assignment);
        let body = e.compiled_by(p);
        assert(expression_spec(p).state == body);
        assert(consume_spec(body, TokenKind::Eof, "Expect end of expression"@).error is None);
        assert(e.written().len() == tokens.len());
        assert(kinds(tokens) =~= e.written()) by {
            assert forall|i: int| 0 <= i < tokens.len() implies kinds(tokens)[i] == e.written()[i] by {
                assert(tokens[0 + i].kind == e.written()[i]);
            }
        }
    }
    if exists|e: Expr|
        #[trigger] e.well_formed() && kinds(tokens) == e.written() && chunk.constants.len()
            + e.numbers().len() <= CONSTANTS_MAX {
        let e = choose|e: Expr|
            #[trigger] e.well_formed() && kinds(tokens) == e.written() && chunk.constants.len()
                + e.numbers().len() <= CONSTANTS_MAX;
        well_formed_expressions_compile(e, tokens, chunk);
    }
}

} // verus!
