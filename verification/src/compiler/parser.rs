//! The parser: compiles tokens by precedence climbing, writing instructions
//! as it reads.

use crate::chunk::Chunk;
use crate::compiler::grammar::{
    binary_spec, binds, consume_spec, emit_constant_spec, emit_two_u8_spec, emit_u8_spec,
    expectation, expression_spec, grouping_spec, infix_precedence, infix_spec, number_spec,
    operand_spec, parse_precedence_spec, unary_spec, Parsed, ParserView, Precedence,
};
use crate::compiler::token::{views, Token, TokenType};
use crate::compiler::CompileError;
use crate::op_codes::ByteOp::{OP_ADD, OP_CONSTANT, OP_DIVIDE, OP_MULTIPLY, OP_NEGATE, OP_SUBTRACT};
use crate::op_codes::OpCode;
use crate::text::push_decimal;
use crate::value::Value;
use vstd::prelude::*;
use vstd::string::*;

verus! {

/// Reads tokens from front to back and writes the instructions of what it
/// has read to a chunk.
pub struct Parser<'a> {
    pub chunk: &'a mut Chunk,
    pub tokens: Vec<Token>,
    pub current: usize,
}

impl<'a> View for Parser<'a> {
    type V = ParserView;

    open spec fn view(&self) -> ParserView {
        ParserView { tokens: views(self.tokens@), current: self.current as int, chunk: (*self.chunk)@ }
    }
}

/// Whether a result is that of a step of the grammar.
pub open spec fn reports(result: Result<(), CompileError>, parsed: Parsed) -> bool {
    match result {
        Ok(_) => parsed.error is None,
        Err(error) => parsed.error == Some(error@),
    }
}

/// An error with the message that names what was expected and the line.
fn error_at(expected: &str, line: u32) -> (error: CompileError)
    ensures
        error@ == expectation(expected@, line as int),
{
    let mut message = String::from_str(expected);
    message.append(" on line ");
    push_decimal(&mut message, line as u64);
    CompileError::CompileError(message)
}

/// The precedence of a token as an operator between two operands.
fn infix_rule(token_type: &TokenType) -> (precedence: Precedence)
    ensures
        precedence == infix_precedence(token_type@),
{
    match token_type {
        TokenType::Minus => Precedence::Term,
        TokenType::Plus => Precedence::Term,
        TokenType::Slash => Precedence::Factor,
        TokenType::Star => Precedence::Factor,
        _ => Precedence::Lowest,
    }
}

impl<'a> Parser<'a> {
    /// The parser has read no more tokens than it has.
    pub open spec fn wf(&self) -> bool {
        self.current <= self.tokens@.len()
    }

    /// A parser that has read none of `tokens` and writes to `chunk`.
    pub fn new(tokens: Vec<Token>, chunk: &'a mut Chunk) -> (parser: Self)
        ensures
            parser.tokens == tokens,
            parser.current == 0,
            *parser.chunk == *old(chunk),
            *final(parser.chunk) == *final(chunk),
    {
        Self { chunk, tokens, current: 0 }
    }

    /// The token read last.
    pub fn previous_token(&self) -> (token: &Token)
        requires
            1 <= self.current <= self.tokens@.len(),
        ensures
            *token == self.tokens@[self.current - 1],
            token@ == self@.previous(),
    {
        &self.tokens[self.current - 1]
    }

    /// Reads the next token and returns it. When none is left, nothing is
    /// read and the token returned is the end of input, on line 0.
    pub fn advance(&mut self) -> (token: &Token)
        ensures
            final(self)@ == old(self)@.advanced(),
            token@ == old(self)@.next_token(),
            final(self).tokens == old(self).tokens,
            *final(final(self).chunk) == *final(old(self).chunk),
    {
        if self.current < self.tokens.len() {
            self.current = self.current + 1;
            return &self.tokens[self.current - 1];
        }
        &Token { token_type: TokenType::Eof, line: 0 }
    }

    /// Reads the next token, which has to be of the given kind, and returns
    /// it. The error names `message` and the line of the token found instead.
    pub fn consume(&mut self, token_type: TokenType, message: &str) -> (result: Result<
        &Token,
        CompileError,
    >)
        ensures
            final(self)@ == consume_spec(old(self)@, token_type@, message@).state,
            match result {
                Ok(token) => consume_spec(old(self)@, token_type@, message@).error is None
                    && token@ == old(self)@.next_token(),
                Err(error) => consume_spec(old(self)@, token_type@, message@).error == Some(
                    error@,
                ),
            },
            final(self).tokens == old(self).tokens,
            *final(final(self).chunk) == *final(old(self).chunk),
    {
        let token = self.advance();
        if token.token_type == token_type {
            return Ok(token);
        }
        Err(error_at(message, token.line))
    }

    /// The line that instructions are tagged with.
    fn current_line(&self) -> (line: u32)
        ensures
            line == self@.line(),
    {
        if 1 <= self.current && self.current <= self.tokens.len() {
            self.tokens[self.current - 1].line
        } else {
            0
        }
    }

    /// Writes the instruction that the byte stands for, tagged with the line
    /// of the token read last.
    pub fn emit_u8(&mut self, byte: u8)
        ensures
            final(self)@ == emit_u8_spec(old(self)@, byte),
            final(self).tokens == old(self).tokens,
            *final(final(self).chunk) == *final(old(self).chunk),
    {
        let line = self.current_line();
        self.chunk.write_op(OpCode::from_byte(byte), line);
    }

    /// Puts the value into the pool of constants and writes the instruction
    /// that names its place.
    pub fn emit_constant(&mut self, value: Value) -> (result: Result<(), CompileError>)
        ensures
            final(self)@ == emit_constant_spec(old(self)@, value).state,
            reports(result, emit_constant_spec(old(self)@, value)),
            final(self).tokens == old(self).tokens,
            *final(final(self).chunk) == *final(old(self).chunk),
    {
        let constant = self.chunk.add_constant(value)?;
        self.emit_two_u8(OP_CONSTANT, constant);
        Ok(())
    }

    /// Writes the instructions that the two bytes stand for: the constant
    /// instruction with its operand, or else one instruction for each byte.
    pub fn emit_two_u8(&mut self, byte1: u8, byte2: u8)
        ensures
            final(self)@ == emit_two_u8_spec(old(self)@, byte1, byte2),
            final(self).tokens == old(self).tokens,
            *final(final(self).chunk) == *final(old(self).chunk),
    {
        let line = self.current_line();
        if byte1 == OP_CONSTANT {
            self.chunk.write_op(OpCode::Constant(byte2), line);
        } else {
            self.chunk.write_op(OpCode::from_byte(byte1), line);
            self.chunk.write_op(OpCode::from_byte(byte2), line);
        }
    }

    /// Reads the first token of an operand. The end of the input is an error.
    fn operand(&mut self) -> (result: Result<(), CompileError>)
        requires
            old(self).wf(),
        ensures
            final(self)@ == operand_spec(old(self)@).state,
            reports(result, operand_spec(old(self)@)),
            result is Ok ==> final(self).current == old(self).current + 1,
            final(self).wf(),
            final(self).current >= old(self).current,
            final(self).tokens == old(self).tokens,
            *final(final(self).chunk) == *final(old(self).chunk),
    {
        let token = self.advance();
        if token.token_type == TokenType::Eof {
            return Err(error_at("Expect expression", token.line));
        }
        Ok(())
    }

    /// Compiles the number read last: it becomes a constant.
    pub fn number(&mut self) -> (result: Result<(), CompileError>)
        requires
            1 <= old(self).current <= old(self).tokens@.len(),
        ensures
            final(self)@ == number_spec(old(self)@).state,
            reports(result, number_spec(old(self)@)),
            final(self).current == old(self).current,
            final(self).tokens == old(self).tokens,
            *final(final(self).chunk) == *final(old(self).chunk),
    {
        let token = self.previous_token();
        let line = token.line;
        let value = match token.token_type {
            TokenType::Number(value) => value,
            _ => {
                return Err(error_at("Expected number", line));
            },
        };
        self.emit_constant(value)
    }

    /// Compiles what follows the `(` read last: an expression, and the `)`
    /// behind it.
    pub fn grouping(&mut self) -> (result: Result<(), CompileError>)
        requires
            1 <= old(self).current <= old(self).tokens@.len(),
        ensures
            final(self)@ == grouping_spec(old(self)@).state,
            reports(result, grouping_spec(old(self)@)),
            final(self).wf(),
            final(self).current >= old(self).current,
            final(self).tokens == old(self).tokens,
            *final(final(self).chunk) == *final(old(self).chunk),
        decreases old(self).tokens@.len() - old(self).current, 2nat,
    {
        self.operand()?;
        self.expression()?;
        self.consume(TokenType::RightParen, "Expect ')' after expression")?;
        Ok(())
    }

    /// Compiles what follows the `-` read last: its operand, which binds as
    /// tightly as a unary operator, and the negation.
    pub fn unary(&mut self) -> (result: Result<(), CompileError>)
        requires
            1 <= old(self).current <= old(self).tokens@.len(),
        ensures
            final(self)@ == unary_spec(old(self)@).state,
            reports(result, unary_spec(old(self)@)),
            final(self).wf(),
            final(self).current >= old(self).current,
            final(self).tokens == old(self).tokens,
            *final(final(self).chunk) == *final(old(self).chunk),
        decreases old(self).tokens@.len() - old(self).current, 2nat,
    {
        let token = self.previous_token().clone();
        self.operand()?;
        self.parse_precedence(Precedence::Unary)?;
        match token.token_type {
            TokenType::Minus => self.emit_u8(OP_NEGATE),
            _ => {
                return Err(error_at("Expected unary operator", token.line));
            },
        }
        Ok(())
    }

    /// Compiles what follows the operator read last: its right operand, which
    /// binds one step tighter than the operator, and the operation.
    pub fn binary(&mut self) -> (result: Result<(), CompileError>)
        requires
            1 <= old(self).current <= old(self).tokens@.len(),
        ensures
            final(self)@ == binary_spec(old(self)@).state,
            reports(result, binary_spec(old(self)@)),
            final(self).wf(),
            final(self).current >= old(self).current,
            final(self).tokens == old(self).tokens,
            *final(final(self).chunk) == *final(old(self).chunk),
        decreases old(self).tokens@.len() - old(self).current, 2nat,
    {
        let token = self.previous_token().clone();
        self.operand()?;
        self.parse_precedence(infix_rule(&token.token_type).next())?;
        match token.token_type {
            TokenType::Plus => self.emit_u8(OP_ADD),
            TokenType::Minus => self.emit_u8(OP_SUBTRACT),
            TokenType::Star => self.emit_u8(OP_MULTIPLY),
            TokenType::Slash => self.emit_u8(OP_DIVIDE),
            _ => {
                return Err(error_at("Expected binary operator", token.line));
            },
        }
        Ok(())
    }

    /// Whether the next token is an operator between two operands that binds
    /// at least as tightly as `precedence`.
    fn continues(&self, precedence: Precedence) -> (answer: bool)
        requires
            self.wf(),
        ensures
            answer == (self.current < self.tokens@.len() && binds(
                self@.tokens[self.current as int].kind,
                precedence,
            )),
    {
        if self.current < self.tokens.len() {
            let rule = infix_rule(&self.tokens[self.current].token_type);
            rule.rank() != 0 && precedence.rank() <= rule.rank()
        } else {
            false
        }
    }

    /// Compiles the expression that begins with the token read last, as far
    /// as its operators bind at least as tightly as `precedence`.
    pub fn parse_precedence(&mut self, precedence: Precedence) -> (result: Result<(), CompileError>)
        requires
            old(self).wf(),
        ensures
            final(self)@ == parse_precedence_spec(old(self)@, precedence).state,
            reports(result, parse_precedence_spec(old(self)@, precedence)),
            final(self).wf(),
            final(self).current >= old(self).current,
            final(self).tokens == old(self).tokens,
            *final(final(self).chunk) == *final(old(self).chunk),
        decreases old(self).tokens@.len() - old(self).current, 4nat,
    {
        if self.current == 0 {
            return Err(error_at("Expect expression", 0));
        }
        let line = self.previous_token().line;
        match self.previous_token().token_type {
            TokenType::Number(_) => self.number()?,
            TokenType::LeftParen => self.grouping()?,
            TokenType::Minus => self.unary()?,
            _ => {
                return Err(error_at("Expect expression", line));
            },
        }
        while self.continues(precedence)
            invariant
                self.wf(),
                self.current >= old(self).current,
                self.tokens == old(self).tokens,
                *final(self.chunk) == *final(old(self).chunk),
                parse_precedence_spec(old(self)@, precedence) == infix_spec(self@, precedence),
            decreases self.tokens@.len() - self.current,
        {
            self.advance();
            self.binary()?;
        }
        Ok(())
    }

    /// Compiles one expression, of any precedence.
    pub fn expression(&mut self) -> (result: Result<(), CompileError>)
        requires
            old(self).wf(),
        ensures
            final(self)@ == expression_spec(old(self)@).state,
            reports(result, expression_spec(old(self)@)),
            final(self).wf(),
            final(self).current >= old(self).current,
            final(self).tokens == old(self).tokens,
            *final(final(self).chunk) == *final(old(self).chunk),
        decreases old(self).tokens@.len() - old(self).current, 5nat,
    {
        self.parse_precedence(Precedence::Assignment)
    }
}

} // verus!
