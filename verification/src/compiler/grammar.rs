//! The grammar: what the parser does with a sequence of tokens, told as
//! functions on mathematical values. These are the definitions that the
//! parser is proved against.
//!
//! The definitions call each other as the steps of the parser do. Where one
//! of them asks whether a step `follows` the parser it started from, or
//! whether the parser is `wf`, it does so for its own sake: that is what shows
//! that the calls come to an end. For a parser that has read no more tokens
//! than it has the answer is always yes, as `parse_precedence_follows` and its
//! neighbours prove.

use crate::chunk::ChunkView;
use crate::compiler::token::{kinds, TokenKind, TokenView};
use crate::op_codes::OpCode;
use crate::text::decimal;
use crate::value::Value;
use vstd::prelude::*;

verus! {

/// How tightly an operator binds, from loosest to tightest.
#[derive(Debug, Clone, Copy, PartialEq, Eq, Structural)]
pub enum Precedence {
    /// Below every operator: the precedence of a token that is none.
    Lowest,
    Assignment,
    Or,
    And,
    Equality,
    Comparison,
    Term,
    Factor,
    Unary,
    Call,
    Primary,
}

impl Precedence {
    /// The place of a precedence in the order: `Lowest` is 0, `Primary` is 10.
    pub open spec fn level(self) -> nat {
        match self {
            Precedence::Lowest => 0,
            Precedence::Assignment => 1,
            Precedence::Or => 2,
            Precedence::And => 3,
            Precedence::Equality => 4,
            Precedence::Comparison => 5,
            Precedence::Term => 6,
            Precedence::Factor => 7,
            Precedence::Unary => 8,
            Precedence::Call => 9,
            Precedence::Primary => 10,
        }
    }

    /// The next tighter precedence; there is none above `Primary`.
    pub open spec fn tighter(self) -> Precedence {
        match self {
            Precedence::Lowest => Precedence::Assignment,
            Precedence::Assignment => Precedence::Or,
            Precedence::Or => Precedence::And,
            Precedence::And => Precedence::Equality,
            Precedence::Equality => Precedence::Comparison,
            Precedence::Comparison => Precedence::Term,
            Precedence::Term => Precedence::Factor,
            Precedence::Factor => Precedence::Unary,
            Precedence::Unary => Precedence::Call,
            Precedence::Call => Precedence::Primary,
            Precedence::Primary => Precedence::Primary,
        }
    }

    /// The place of the precedence in the order.
    pub fn rank(self) -> (rank: u8)
        ensures
            rank == self.level(),
    {
        match self {
            Precedence::Lowest => 0,
            Precedence::Assignment => 1,
            Precedence::Or => 2,
            Precedence::And => 3,
            Precedence::Equality => 4,
            Precedence::Comparison => 5,
            Precedence::Term => 6,
            Precedence::Factor => 7,
            Precedence::Unary => 8,
            Precedence::Call => 9,
            Precedence::Primary => 10,
        }
    }

    /// The next tighter precedence.
    pub fn next(self) -> (next: Precedence)
        ensures
            next == self.tighter(),
    {
        match self {
            Precedence::Lowest => Precedence::Assignment,
            Precedence::Assignment => Precedence::Or,
            Precedence::Or => Precedence::And,
            Precedence::And => Precedence::Equality,
            Precedence::Equality => Precedence::Comparison,
            Precedence::Comparison => Precedence::Term,
            Precedence::Term => Precedence::Factor,
            Precedence::Factor => Precedence::Unary,
            Precedence::Unary => Precedence::Call,
            Precedence::Call => Precedence::Primary,
            Precedence::Primary => Precedence::Primary,
        }
    }
}

/// The precedence of a token as an operator between two operands; `Lowest`
/// for a token that is no such operator.
pub open spec fn infix_precedence(kind: TokenKind) -> Precedence {
    match kind {
        TokenKind::Minus => Precedence::Term,
        TokenKind::Plus => Precedence::Term,
        TokenKind::Slash => Precedence::Factor,
        TokenKind::Star => Precedence::Factor,
        _ => Precedence::Lowest,
    }
}

/// The instruction that an operator between two operands compiles to.
pub open spec fn binary_opcode(kind: TokenKind) -> Option<OpCode> {
    match kind {
        TokenKind::Plus => Some(OpCode::Addition),
        TokenKind::Minus => Some(OpCode::Subtraction),
        TokenKind::Star => Some(OpCode::Multiplication),
        TokenKind::Slash => Some(OpCode::Division),
        _ => None,
    }
}

/// Whether a token continues an expression that is parsed at `precedence`: it
/// is an operator between two operands and binds at least that tightly.
pub open spec fn binds(kind: TokenKind, precedence: Precedence) -> bool {
    infix_precedence(kind) != Precedence::Lowest && precedence.level() <= infix_precedence(
        kind,
    ).level()
}

/// The message of a parse error: what was expected, and the line.
pub open spec fn expectation(expected: Seq<char>, line: int) -> Seq<char> {
    expected + " on line "@ + decimal(line as nat)
}

/// The token that `advance` hands out when none is left.
pub open spec fn end_of_input() -> TokenView {
    TokenView { kind: TokenKind::Eof, line: 0 }
}

/// A parser as a mathematical value: its tokens, how many of them it has
/// read, and the chunk it writes to.
pub struct ParserView {
    pub tokens: Seq<TokenView>,
    pub current: int,
    pub chunk: ChunkView,
}

/// What a step of the parser leaves: the parser after it, and the message of
/// the error if it failed.
pub struct Parsed {
    pub state: ParserView,
    pub error: Option<Seq<char>>,
}

impl ParserView {
    /// The parser has read no more tokens than there are.
    pub open spec fn wf(self) -> bool {
        0 <= self.current <= self.tokens.len()
    }

    /// The token read last.
    pub open spec fn previous(self) -> TokenView {
        self.tokens[self.current - 1]
    }

    /// The line that instructions are tagged with: that of the token read
    /// last, and 0 before the first.
    pub open spec fn line(self) -> u32 {
        if 1 <= self.current <= self.tokens.len() {
            self.previous().line as u32
        } else {
            0
        }
    }

    /// The token that `advance` returns: the next one, or the end of input
    /// when none is left.
    pub open spec fn next_token(self) -> TokenView {
        if 0 <= self.current < self.tokens.len() {
            self.tokens[self.current]
        } else {
            end_of_input()
        }
    }

    /// The parser after `advance`: one token further, unless none is left.
    pub open spec fn advanced(self) -> ParserView {
        if 0 <= self.current < self.tokens.len() {
            ParserView { current: self.current + 1, ..self }
        } else {
            self
        }
    }

    /// The parser after it has written one instruction, tagged with its line.
    pub open spec fn emit(self, opcode: OpCode) -> ParserView {
        ParserView { chunk: self.chunk.emit(opcode, self.line()), ..self }
    }

    /// The same tokens, read at least as far as `before` had read them.
    pub open spec fn follows(self, before: ParserView) -> bool {
        self.tokens == before.tokens && before.current <= self.current <= self.tokens.len()
    }

    /// This step went well.
    pub open spec fn done(self) -> Parsed {
        Parsed { state: self, error: None }
    }

    /// This step failed.
    pub open spec fn failed(self, message: Seq<char>) -> Parsed {
        Parsed { state: self, error: Some(message) }
    }
}

/// The instructions that one byte stands for: its opcode.
pub open spec fn emit_u8_spec(p: ParserView, byte: u8) -> ParserView {
    p.emit(OpCode::of_byte(byte))
}

/// The instructions that two bytes stand for: a constant instruction with its
/// operand, or else the opcode of each.
pub open spec fn emit_two_u8_spec(p: ParserView, byte1: u8, byte2: u8) -> ParserView {
    if byte1 == OpCode::Constant(0).byte() {
        p.emit(OpCode::Constant(byte2))
    } else {
        p.emit(OpCode::of_byte(byte1)).emit(OpCode::of_byte(byte2))
    }
}

/// `emit_constant`: the value goes to the pool and an instruction that names
/// its place is written; a full pool is an error and leaves all as it was.
pub open spec fn emit_constant_spec(p: ParserView, value: Value) -> Parsed {
    if p.chunk.has_room() {
        ParserView { chunk: p.chunk.with_constant(value), ..p }.emit(
            OpCode::Constant(p.chunk.constants.len() as u8),
        ).done()
    } else {
        p.failed("Too many constants in one chunk"@)
    }
}

/// `consume`: reads one token, which has to be of the given kind.
pub open spec fn consume_spec(p: ParserView, kind: TokenKind, expected: Seq<char>) -> Parsed {
    if p.next_token().kind == kind {
        p.advanced().done()
    } else {
        p.advanced().failed(expectation(expected, p.next_token().line))
    }
}

/// Reads the first token of an operand; the end of the input is an error.
pub open spec fn operand_spec(p: ParserView) -> Parsed {
    if p.next_token().kind is Eof {
        p.advanced().failed(expectation("Expect expression"@, p.next_token().line))
    } else {
        p.advanced().done()
    }
}

/// `number`: the number read last becomes a constant.
pub open spec fn number_spec(p: ParserView) -> Parsed {
    match p.previous().kind {
        TokenKind::Number(value) => emit_constant_spec(p, value),
        _ => p.failed(expectation("Expected number"@, p.previous().line)),
    }
}

/// `grouping`: an expression and the `)` behind it, the `(` having been read.
pub open spec fn grouping_spec(p: ParserView) -> Parsed
    decreases p.tokens.len() - p.current, 2nat,
{
    let first = operand_spec(p);
    if first.error is Some || !p.wf() {
        first
    } else {
        let inner = expression_spec(first.state);
        if inner.error is Some {
            inner
        } else {
            consume_spec(inner.state, TokenKind::RightParen, "Expect ')' after expression"@)
        }
    }
}

/// `unary`: the operand of the `-` read last, then the negation.
pub open spec fn unary_spec(p: ParserView) -> Parsed
    decreases p.tokens.len() - p.current, 2nat,
{
    let operator = p.previous();
    let first = operand_spec(p);
    if first.error is Some || !p.wf() {
        first
    } else {
        let operand = parse_precedence_spec(first.state, Precedence::Unary);
        if operand.error is Some {
            operand
        } else if operator.kind is Minus {
            operand.state.emit(OpCode::Negate).done()
        } else {
            operand.state.failed(expectation("Expected unary operator"@, operator.line))
        }
    }
}

/// The right operand of the operator read last, parsed one step tighter than
/// the operator binds, then the operation.
pub open spec fn binary_spec(p: ParserView) -> Parsed
    decreases p.tokens.len() - p.current, 2nat,
{
    let operator = p.previous();
    let first = operand_spec(p);
    if first.error is Some || !p.wf() {
        first
    } else {
        let operand = parse_precedence_spec(
            first.state,
            infix_precedence(operator.kind).tighter(),
        );
        if operand.error is Some {
            operand
        } else {
            match binary_opcode(operator.kind) {
                Some(opcode) => operand.state.emit(opcode).done(),
                None => operand.state.failed(
                    expectation("Expected binary operator"@, operator.line),
                ),
            }
        }
    }
}

/// As long as the next token is an operator that binds at least as tightly
/// as `precedence`: reads it and compiles its right operand and the operation.
pub open spec fn infix_spec(p: ParserView, precedence: Precedence) -> Parsed
    decreases p.tokens.len() - p.current, 3nat,
{
    if p.wf() && p.current < p.tokens.len() && binds(p.tokens[p.current].kind, precedence) {
        let step = binary_spec(p.advanced());
        if step.error is Some || !step.state.follows(p.advanced()) {
            step
        } else {
            infix_spec(step.state, precedence)
        }
    } else {
        p.done()
    }
}

/// `parse_precedence`: compiles the expression that begins with the token
/// read last and goes on as far as operators bind at least as tightly as
/// `precedence`. A number, a `(` or a `-` can begin an expression.
pub open spec fn parse_precedence_spec(p: ParserView, precedence: Precedence) -> Parsed
    decreases p.tokens.len() - p.current, 4nat,
{
    if !(1 <= p.current <= p.tokens.len()) {
        p.failed(expectation("Expect expression"@, 0))
    } else {
        let first = match p.previous().kind {
            TokenKind::Number(_) => number_spec(p),
            TokenKind::LeftParen => grouping_spec(p),
            TokenKind::Minus => unary_spec(p),
            _ => p.failed(expectation("Expect expression"@, p.previous().line)),
        };
        if first.error is Some || !first.state.follows(p) {
            first
        } else {
            infix_spec(first.state, precedence)
        }
    }
}

/// `expression`: an expression of any precedence.
pub open spec fn expression_spec(p: ParserView) -> Parsed
    decreases p.tokens.len() - p.current, 5nat,
{
    parse_precedence_spec(p, Precedence::Assignment)
}

/// What compiling a sequence of tokens into a chunk leaves: one expression
/// that takes all tokens, and a `Return` behind its code.
pub open spec fn compile_tokens(tokens: Seq<TokenView>, chunk: ChunkView) -> Parsed {
    let start = ParserView { tokens, current: 0, chunk };
    let body = expression_spec(start.advanced());
    if body.error is Some {
        body
    } else {
        let end = consume_spec(body.state, TokenKind::Eof, "Expect end of expression"@);
        if end.error is Some {
            end
        } else {
            end.state.emit(OpCode::Return).done()
        }
    }
}

/// Two parsers that differ in nothing but lines: their tokens are of the same
/// kinds, they have read equally many of them, and their chunks hold the same
/// opcodes and the same constants.
pub open spec fn alike(p: ParserView, q: ParserView) -> bool {
    &&& kinds(p.tokens) == kinds(q.tokens)
    &&& p.current == q.current
    &&& p.chunk.opcodes() == q.chunk.opcodes()
    &&& p.chunk.constants == q.chunk.constants
}

/// Two steps that end alike and fail together.
pub open spec fn agree(a: Parsed, b: Parsed) -> bool {
    alike(a.state, b.state) && (a.error is Some <==> b.error is Some)
}

proof fn alike_tokens(p: ParserView, q: ParserView)
    requires
        alike(p, q),
    ensures
        p.tokens.len() == q.tokens.len(),
        forall|i: int| 0 <= i < p.tokens.len() ==> p.tokens[i].kind == q.tokens[i].kind,
        p.wf() == q.wf(),
        p.next_token().kind == q.next_token().kind,
        alike(p.advanced(), q.advanced()),
        1 <= p.current <= p.tokens.len() ==> p.previous().kind == q.previous().kind,
{
    assert(kinds(p.tokens).len() == p.tokens.len());
    assert(kinds(q.tokens).len() == q.tokens.len());
    assert forall|i: int| 0 <= i < p.tokens.len() implies p.tokens[i].kind == q.tokens[i].kind by {
        assert(kinds(p.tokens)[i] == p.tokens[i].kind);
        assert(kinds(q.tokens)[i] == q.tokens[i].kind);
    }
}

proof fn alike_emit(p: ParserView, q: ParserView, opcode: OpCode)
    requires
        alike(p, q),
    ensures
        alike(p.emit(opcode), q.emit(opcode)),
{
    assert(p.emit(opcode).chunk.opcodes() == p.chunk.opcodes().push(opcode));
    assert(q.emit(opcode).chunk.opcodes() == q.chunk.opcodes().push(opcode));
}

proof fn alike_emit_constant(p: ParserView, q: ParserView, value: Value)
    requires
        alike(p, q),
    ensures
        agree(emit_constant_spec(p, value), emit_constant_spec(q, value)),
{
    if p.chunk.has_room() {
        let with_value = ParserView { chunk: p.chunk.with_constant(value), ..p };
        let other_with_value = ParserView { chunk: q.chunk.with_constant(value), ..q };
        assert(with_value.chunk.opcodes() == p.chunk.opcodes());
        assert(other_with_value.chunk.opcodes() == q.chunk.opcodes());
        alike_emit(with_value, other_with_value, OpCode::Constant(p.chunk.constants.len() as u8));
    }
}

proof fn alike_consume(p: ParserView, q: ParserView, kind: TokenKind, expected: Seq<char>)
    requires
        alike(p, q),
    ensures
        agree(consume_spec(p, kind, expected), consume_spec(q, kind, expected)),
{
    alike_tokens(p, q);
}

proof fn alike_operand(p: ParserView, q: ParserView)
    requires
        alike(p, q),
    ensures
        agree(operand_spec(p), operand_spec(q)),
{
    alike_tokens(p, q);
}

proof fn alike_number(p: ParserView, q: ParserView)
    requires
        alike(p, q),
        1 <= p.current <= p.tokens.len(),
    ensures
        agree(number_spec(p), number_spec(q)),
{
    alike_tokens(p, q);
    match p.previous().kind {
        TokenKind::Number(value) => {
            alike_emit_constant(p, q, value);
        },
        _ => {},
    }
}

proof fn alike_grouping(p: ParserView, q: ParserView)
    requires
        alike(p, q),
    ensures
        agree(grouping_spec(p), grouping_spec(q)),
    decreases p.tokens.len() - p.current, 2nat,
{
    alike_tokens(p, q);
    alike_operand(p, q);
    let first = operand_spec(p);
    let other = operand_spec(q);
    if !(first.error is Some || !p.wf()) {
        alike_expression(first.state, other.state);
        let inner = expression_spec(first.state);
        let inner_other = expression_spec(other.state);
        if inner.error is None {
            alike_consume(
                inner.state,
                inner_other.state,
                TokenKind::RightParen,
                "Expect ')' after expression"@,
            );
        }
    }
}

proof fn alike_unary(p: ParserView, q: ParserView)
    requires
        alike(p, q),
        1 <= p.current <= p.tokens.len(),
    ensures
        agree(unary_spec(p), unary_spec(q)),
    decreases p.tokens.len() - p.current, 2nat,
{
    alike_tokens(p, q);
    alike_operand(p, q);
    let first = operand_spec(p);
    let other = operand_spec(q);
    if !(first.error is Some || !p.wf()) {
        alike_parse_precedence(first.state, other.state, Precedence::Unary);
        let operand = parse_precedence_spec(first.state, Precedence::Unary);
        let operand_other = parse_precedence_spec(other.state, Precedence::Unary);
        if operand.error is None {
            alike_emit(operand.state, operand_other.state, OpCode::Negate);
        }
    }
}

proof fn alike_binary(p: ParserView, q: ParserView)
    requires
        alike(p, q),
        1 <= p.current <= p.tokens.len(),
    ensures
        agree(binary_spec(p), binary_spec(q)),
    decreases p.tokens.len() - p.current, 2nat,
{
    alike_tokens(p, q);
    alike_operand(p, q);
    let first = operand_spec(p);
    let other = operand_spec(q);
    if !(first.error is Some || !p.wf()) {
        let precedence = infix_precedence(p.previous().kind).tighter();
        alike_parse_precedence(first.state, other.state, precedence);
        let operand = parse_precedence_spec(first.state, precedence);
        let operand_other = parse_precedence_spec(other.state, precedence);
        if operand.error is None {
            match binary_opcode(p.previous().kind) {
                Some(opcode) => {
                    alike_emit(operand.state, operand_other.state, opcode);
                },
                None => {},
            }
        }
    }
}

proof fn alike_infix(p: ParserView, q: ParserView, precedence: Precedence)
    requires
        alike(p, q),
    ensures
        agree(infix_spec(p, precedence), infix_spec(q, precedence)),
    decreases p.tokens.len() - p.current, 3nat,
{
    alike_tokens(p, q);
    if p.wf() && p.current < p.tokens.len() && binds(p.tokens[p.current].kind, precedence) {
        alike_binary(p.advanced(), q.advanced());
        let step = binary_spec(p.advanced());
        let step_other = binary_spec(q.advanced());
        binary_follows(p.advanced());
        binary_follows(q.advanced());
        if step.error is None {
            alike_infix(step.state, step_other.state, precedence);
        }
    }
}

/// `grouping` reads on in the same tokens and never back.
pub proof fn grouping_follows(p: ParserView)
    requires
        p.wf(),
    ensures
        grouping_spec(p).state.follows(p),
    decreases p.tokens.len() - p.current, 2nat,
{
    let first = operand_spec(p);
    if first.error is None {
        expression_follows(first.state);
    }
}

/// `unary` reads on in the same tokens and never back.
pub proof fn unary_follows(p: ParserView)
    requires
        p.wf(),
    ensures
        unary_spec(p).state.follows(p),
    decreases p.tokens.len() - p.current, 2nat,
{
    let first = operand_spec(p);
    if first.error is None {
        parse_precedence_follows(first.state, Precedence::Unary);
    }
}

/// The step for an operator between two operands reads on in the same tokens
/// and never back.
pub proof fn binary_follows(p: ParserView)
    requires
        p.wf(),
    ensures
        binary_spec(p).state.follows(p),
    decreases p.tokens.len() - p.current, 2nat,
{
    let first = operand_spec(p);
    if first.error is None {
        parse_precedence_follows(first.state, infix_precedence(p.previous().kind).tighter());
    }
}

/// The steps for a run of operators read on in the same tokens and never back.
pub proof fn infix_follows(p: ParserView, precedence: Precedence)
    requires
        p.wf(),
    ensures
        infix_spec(p, precedence).state.follows(p),
    decreases p.tokens.len() - p.current, 3nat,
{
    if p.current < p.tokens.len() && binds(p.tokens[p.current].kind, precedence) {
        binary_follows(p.advanced());
        let step = binary_spec(p.advanced());
        if step.error is None {
            infix_follows(step.state, precedence);
        }
    }
}

/// `parse_precedence` reads on in the same tokens and never back.
pub proof fn parse_precedence_follows(p: ParserView, precedence: Precedence)
    requires
        p.wf(),
    ensures
        parse_precedence_spec(p, precedence).state.follows(p),
    decreases p.tokens.len() - p.current, 4nat,
{
    if 1 <= p.current <= p.tokens.len() {
        match p.previous().kind {
            TokenKind::Number(_) => {},
            TokenKind::LeftParen => {
                grouping_follows(p);
            },
            TokenKind::Minus => {
                unary_follows(p);
            },
            _ => {},
        }
        let first = match p.previous().kind {
            TokenKind::Number(_) => number_spec(p),
            TokenKind::LeftParen => grouping_spec(p),
            TokenKind::Minus => unary_spec(p),
            _ => p.failed(expectation("Expect expression"@, p.previous().line)),
        };
        if first.error is None {
            infix_follows(first.state, precedence);
        }
    }
}

/// `expression` reads on in the same tokens and never back.
pub proof fn expression_follows(p: ParserView)
    requires
        p.wf(),
    ensures
        expression_spec(p).state.follows(p),
    decreases p.tokens.len() - p.current, 5nat,
{
    parse_precedence_follows(p, Precedence::Assignment);
}

proof fn alike_parse_precedence(p: ParserView, q: ParserView, precedence: Precedence)
    requires
        alike(p, q),
    ensures
        agree(parse_precedence_spec(p, precedence), parse_precedence_spec(q, precedence)),
    decreases p.tokens.len() - p.current, 4nat,
{
    alike_tokens(p, q);
    if 1 <= p.current <= p.tokens.len() {
        match p.previous().kind {
            TokenKind::Number(_) => {
                alike_number(p, q);
            },
            TokenKind::LeftParen => {
                alike_grouping(p, q);
            },
            TokenKind::Minus => {
                alike_unary(p, q);
            },
            _ => {},
        }
        let first = match p.previous().kind {
            TokenKind::Number(_) => number_spec(p),
            TokenKind::LeftParen => grouping_spec(p),
            TokenKind::Minus => unary_spec(p),
            _ => p.failed(expectation("Expect expression"@, p.previous().line)),
        };
        let other = match q.previous().kind {
            TokenKind::Number(_) => number_spec(q),
            TokenKind::LeftParen => grouping_spec(q),
            TokenKind::Minus => unary_spec(q),
            _ => q.failed(expectation("Expect expression"@, q.previous().line)),
        };
        if p.previous().kind is LeftParen {
            grouping_follows(p);
            grouping_follows(q);
        }
        if p.previous().kind is Minus {
            unary_follows(p);
            unary_follows(q);
        }
        if first.error is None {
            alike_infix(first.state, other.state, precedence);
        }
    }
}

proof fn alike_expression(p: ParserView, q: ParserView)
    requires
        alike(p, q),
    ensures
        agree(expression_spec(p), expression_spec(q)),
    decreases p.tokens.len() - p.current, 5nat,
{
    alike_parse_precedence(p, q, Precedence::Assignment);
}

/// The parser looks at the kinds of its tokens and at nothing else: two
/// sequences of tokens of the same kinds, on whatever lines, compile into
/// the same opcodes and the same constants, and both compile or both fail.
pub proof fn lines_do_not_matter(
    tokens: Seq<TokenView>,
    others: Seq<TokenView>,
    chunk: ChunkView,
)
    requires
        kinds(tokens) == kinds(others),
    ensures
        compile_tokens(tokens, chunk).error is Some <==> compile_tokens(others, chunk).error is Some,
        compile_tokens(tokens, chunk).state.chunk.opcodes() == compile_tokens(
            others,
            chunk,
        ).state.chunk.opcodes(),
        compile_tokens(tokens, chunk).state.chunk.constants == compile_tokens(
            others,
            chunk,
        ).state.chunk.constants,
{
    let p = ParserView { tokens, current: 0, chunk };
    let q = ParserView { tokens: others, current: 0, chunk };
    alike_tokens(p, q);
    alike_expression(p.advanced(), q.advanced());
    let body = expression_spec(p.advanced());
    let body_other = expression_spec(q.advanced());
    if body.error is None {
        alike_consume(body.state, body_other.state, TokenKind::Eof, "Expect end of expression"@);
        let end = consume_spec(body.state, TokenKind::Eof, "Expect end of expression"@);
        let end_other = consume_spec(
            body_other.state,
            TokenKind::Eof,
            "Expect end of expression"@,
        );
        if end.error is None {
            alike_emit(end.state, end_other.state, OpCode::Return);
        }
    }
}

} // verus!
